use ring_buffer::disruptor::{CapacityError, DisruptorRingBuffer};

#[test]
fn storage_starts_without_slots() {
    let storage = DisruptorRingBuffer::<u8>::new(8).unwrap();
    assert_eq!(storage.size(), 8);
    assert_eq!(storage.len(), 0);
    assert_eq!(storage.slice(0, 0), &[] as &[u8]);
}

#[test]
fn storage_rejects_invalid_capacity() {
    assert_eq!(DisruptorRingBuffer::<u8>::new(0).err(), Some(CapacityError { requested: 0 }));
    assert_eq!(DisruptorRingBuffer::<u8>::new(6).err(), Some(CapacityError { requested: 6 }));
    assert_eq!(DisruptorRingBuffer::<u8>::new(-8).err(), Some(CapacityError { requested: -8 }));
}

#[test]
fn capacity_error_message() {
    let error = CapacityError { requested: 3 };
    assert_eq!(error.message(), "Size isn't a power of 2");
}

#[test]
fn storage_fills_slot_by_slot_then_overwrites_in_place() {
    let mut storage = DisruptorRingBuffer::<&str>::new(4).unwrap();
    storage.store(0, "a");
    storage.store(1, "b");
    assert_eq!(storage.len(), 2);
    assert_eq!(storage.slice(0, 2), &["a", "b"]);
    storage.store(2, "c");
    storage.store(3, "d");
    assert_eq!(storage.len(), 4);
    // the second lap reuses the slots
    storage.store(4, "e");
    assert_eq!(storage.len(), 4);
    assert_eq!(storage.slice(0, 4), &["e", "b", "c", "d"]);
    storage.store(5, "f");
    assert_eq!(storage.slice(0, 4), &["e", "f", "c", "d"]);
    assert_eq!(storage.slice(1, 3), &["f", "c"]);
    assert_eq!(storage.slice(2, 2), &[] as &[&str]);
}

#[test]
fn storage_load_reads_the_slot_of_the_sequence() {
    let mut storage = DisruptorRingBuffer::<u32>::new(2).unwrap();
    storage.store(0, 10);
    storage.store(1, 11);
    assert_eq!(*storage.load(0), 10);
    assert_eq!(*storage.load(1), 11);
    storage.store(2, 12);
    assert_eq!(*storage.load(2), 12);
    assert_eq!(*storage.load(0), 12);
    assert_eq!(*storage.load(1), 11);
    assert_eq!(*storage.load(3), 11);
}

#[test]
fn storage_store_may_overwrite_a_written_slot_in_the_first_lap() {
    let mut storage = DisruptorRingBuffer::<u32>::new(4).unwrap();
    storage.store(0, 1);
    storage.store(1, 2);
    storage.store(0, 3);
    assert_eq!(storage.len(), 2);
    assert_eq!(storage.slice(0, 2), &[3, 2]);
}

#[test]
fn storage_of_one_slot() {
    let mut storage = DisruptorRingBuffer::<u32>::new(1).unwrap();
    for sequence in 0..10 {
        storage.store(sequence, sequence as u32 * 3);
        assert_eq!(storage.len(), 1);
        assert_eq!(*storage.load(sequence), sequence as u32 * 3);
    }
}
