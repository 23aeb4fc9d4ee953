use ring_buffer::disruptor::{ordering_for, Access, AtomicSequence, Sequence};
use std::sync::atomic::Ordering;

#[test]
fn sequence_starts_before_the_first_item() {
    let sequence = Sequence::new();
    assert_eq!(sequence.get(), -1);
}

#[test]
fn sequence_inc_advances_by_one() {
    let mut sequence = Sequence::new();
    sequence.inc();
    assert_eq!(sequence.get(), 0);
    sequence.inc();
    sequence.inc();
    assert_eq!(sequence.get(), 2);
}

#[test]
fn sequence_set_overwrites() {
    let mut sequence = Sequence::new();
    sequence.set(41);
    assert_eq!(sequence.get(), 41);
    sequence.inc();
    assert_eq!(sequence.get(), 42);
    sequence.set(-1);
    assert_eq!(sequence.get(), -1);
    sequence.set(isize::MAX - 1);
    sequence.inc();
    assert_eq!(sequence.get(), isize::MAX);
}

#[test]
fn atomic_sequence_starts_before_the_first_item() {
    let sequence = AtomicSequence::new();
    assert_eq!(sequence.get(Ordering::Relaxed), -1);
    assert_eq!(sequence.get(Ordering::Acquire), -1);
    assert_eq!(sequence.get(Ordering::SeqCst), -1);
}

#[test]
fn atomic_sequence_set_then_get() {
    let sequence = AtomicSequence::new();
    sequence.set(7, Ordering::Release);
    assert_eq!(sequence.get(Ordering::Acquire), 7);
    sequence.set(-3, Ordering::Relaxed);
    assert_eq!(sequence.get(Ordering::Relaxed), -3);
    sequence.set(12, Ordering::SeqCst);
    assert_eq!(sequence.get(Ordering::SeqCst), 12);
}

#[test]
fn atomic_sequence_inc_advances_by_one() {
    let sequence = AtomicSequence::new();
    sequence.inc(Ordering::Relaxed);
    assert_eq!(sequence.get(Ordering::Relaxed), 0);
    sequence.inc(Ordering::AcqRel);
    sequence.inc(Ordering::Release);
    sequence.inc(Ordering::Acquire);
    sequence.inc(Ordering::SeqCst);
    assert_eq!(sequence.get(Ordering::Relaxed), 4);
}

#[test]
fn atomic_sequence_inc_wraps_at_the_largest_value() {
    let sequence = AtomicSequence::new();
    sequence.set(isize::MAX, Ordering::Relaxed);
    sequence.inc(Ordering::Relaxed);
    assert_eq!(sequence.get(Ordering::Relaxed), isize::MIN);
}

#[test]
fn atomic_sequence_is_shared_by_reference() {
    let sequence = AtomicSequence::new();
    let first = &sequence;
    let second = &sequence;
    first.set(5, Ordering::Release);
    second.inc(Ordering::Relaxed);
    assert_eq!(first.get(Ordering::Acquire), 6);
}

#[test]
fn publishing_releases_and_observing_acquires() {
    assert_eq!(ordering_for(Access::PublishCursor), Ordering::Release);
    assert_eq!(ordering_for(Access::ObserveCursor), Ordering::Acquire);
    assert_eq!(ordering_for(Access::ObserveOwnSequence), Ordering::Acquire);
}

#[test]
fn acknowledging_stays_relaxed() {
    assert_eq!(ordering_for(Access::AdvanceOwnSequence), Ordering::Relaxed);
    assert_eq!(ordering_for(Access::Acknowledge), Ordering::Relaxed);
    assert_eq!(ordering_for(Access::ObserveAcknowledged), Ordering::Relaxed);
}

#[test]
fn every_access_has_an_ordering_its_kind_accepts() {
    let loads = [Access::ObserveCursor, Access::ObserveOwnSequence, Access::ObserveAcknowledged];
    let stores = [Access::PublishCursor, Access::AdvanceOwnSequence, Access::Acknowledge];
    let sequence = AtomicSequence::new();
    for access in stores {
        sequence.set(3, ordering_for(access));
    }
    for access in loads {
        assert_eq!(sequence.get(ordering_for(access)), 3);
    }
}
