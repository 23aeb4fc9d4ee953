use ring_buffer::disruptor::protocol::{
    batch_range, is_published, is_slot_free, slot_index, BatchRange,
};

#[test]
fn slot_index_is_sequence_mod_capacity() {
    assert_eq!(slot_index(0, 4), 0);
    assert_eq!(slot_index(3, 4), 3);
    assert_eq!(slot_index(4, 4), 0);
    assert_eq!(slot_index(5, 4), 1);
    assert_eq!(slot_index(1023, 1024), 1023);
    assert_eq!(slot_index(1024, 1024), 0);
    assert_eq!(slot_index(123_456, 1), 0);
    assert_eq!(slot_index(isize::MAX, 2), 1);
}

#[test]
fn slot_index_matches_masking_for_powers_of_two() {
    for shift in 0..10 {
        let capacity: isize = 1 << shift;
        for sequence in 0..3000isize {
            assert_eq!(slot_index(sequence, capacity), (sequence & (capacity - 1)) as usize);
        }
    }
}

#[test]
fn slot_is_free_once_the_previous_lap_is_acknowledged() {
    // capacity 2: sequences 0 and 1 fit while nothing is acknowledged
    assert!(is_slot_free(0, -1, 2));
    assert!(is_slot_free(1, -1, 2));
    // sequence 2 needs sequence 0 acknowledged
    assert!(!is_slot_free(2, -1, 2));
    assert!(is_slot_free(2, 0, 2));
    assert!(is_slot_free(2, 1, 2));
    // sequence 3 needs sequence 1 acknowledged
    assert!(!is_slot_free(3, 0, 2));
    assert!(is_slot_free(3, 1, 2));
}

#[test]
fn slot_is_free_does_not_overflow_at_the_extremes() {
    assert!(is_slot_free(isize::MIN, isize::MIN, isize::MAX));
    assert!(is_slot_free(isize::MIN, isize::MAX, isize::MAX));
    assert!(!is_slot_free(isize::MAX, isize::MIN, 1));
    assert!(is_slot_free(isize::MAX, isize::MAX - 1, 1));
    assert!(!is_slot_free(isize::MAX, isize::MAX - 2, 1));
}

#[test]
fn published_means_cursor_beyond_observed() {
    assert!(!is_published(-1, -1));
    assert!(is_published(0, -1));
    assert!(!is_published(4, 4));
    assert!(!is_published(3, 4));
    assert!(is_published(5, 4));
}

#[test]
fn batch_range_straight() {
    assert_eq!(batch_range(-1, 0, 4), BatchRange::Straight { start: 0, end: 0 });
    assert_eq!(batch_range(-1, 2, 4), BatchRange::Straight { start: 0, end: 2 });
    assert_eq!(batch_range(-1, 3, 4), BatchRange::Straight { start: 0, end: 3 });
    assert_eq!(batch_range(0, 2, 4), BatchRange::Straight { start: 1, end: 2 });
    assert_eq!(batch_range(3, 7, 4), BatchRange::Straight { start: 0, end: 3 });
    assert_eq!(batch_range(6, 7, 4), BatchRange::Straight { start: 3, end: 3 });
}

#[test]
fn batch_range_wrapped_index_math() {
    // start = (2 + 1) mod 4 = 3, end = 5 mod 4 = 1, and 3 > 1
    assert_eq!(batch_range(2, 5, 4), BatchRange::Wrapped { start: 3, end: 1 });
    assert_eq!(batch_range(0, 4, 4), BatchRange::Wrapped { start: 1, end: 0 });
    assert_eq!(batch_range(1, 5, 4), BatchRange::Wrapped { start: 2, end: 1 });
    assert_eq!(batch_range(2, 4, 4), BatchRange::Wrapped { start: 3, end: 0 });
}

#[test]
fn batch_range_in_a_ring_of_one_slot_is_always_straight() {
    for observed in -1..20isize {
        assert_eq!(batch_range(observed, observed + 1, 1), BatchRange::Straight { start: 0, end: 0 });
    }
}

#[test]
fn batch_range_covers_each_sequence_once_in_order() {
    for shift in 0..5 {
        let capacity: isize = 1 << shift;
        for observed in -1..40isize {
            for count in 1..=capacity {
                let cursor = observed + count;
                let mut slots = Vec::new();
                match batch_range(observed, cursor, capacity) {
                    BatchRange::Straight { start, end } => {
                        assert!(start <= end);
                        slots.extend(start..=end);
                    }
                    BatchRange::Wrapped { start, end } => {
                        assert!(start > end);
                        slots.extend(start..capacity as usize);
                        slots.extend(0..=end);
                    }
                }
                let expected: Vec<usize> =
                    (observed + 1..=cursor).map(|sequence| slot_index(sequence, capacity)).collect();
                assert_eq!(slots, expected);
            }
        }
    }
}
