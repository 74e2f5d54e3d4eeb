use gpui_mobile::sample_ring::{SampleRing, MAX_SAMPLES};

#[test]
fn empty_ring_holds_nothing() {
    let ring: SampleRing<u32> = SampleRing::new();
    assert!(ring.stored().is_empty());
    assert_eq!(ring.count(), 0);
}

#[test]
fn ring_holds_samples_in_slot_order() {
    let mut ring = SampleRing::new();
    ring.record(1u32);
    ring.record(2);
    ring.record(3);
    assert_eq!(ring.stored(), vec![1, 2, 3]);
    assert_eq!(ring.count(), 3);
}

#[test]
fn sample_ring_wraps() {
    let mut ring = SampleRing::new();
    for i in 0..(MAX_SAMPLES * 2 + 3) {
        ring.record(i);
    }
    let stored = ring.stored();
    assert_eq!(stored.len(), MAX_SAMPLES);
    // Slot k holds the latest sample whose index is k modulo the capacity.
    let expected: Vec<usize> = (0..MAX_SAMPLES)
        .map(|slot| if slot < 3 { 2 * MAX_SAMPLES + slot } else { MAX_SAMPLES + slot })
        .collect();
    assert_eq!(stored, expected);
    assert_eq!(ring.count(), MAX_SAMPLES * 2 + 3);
}

#[test]
fn reset_empties_the_ring() {
    let mut ring = SampleRing::new();
    ring.record((0.0f32, 0.0f32));
    ring.record((50.0, 50.0));
    ring.reset();
    assert!(ring.stored().is_empty());
    assert_eq!(ring.count(), 0);
    ring.record((1.0, 2.0));
    assert_eq!(ring.stored(), vec![(1.0, 2.0)]);
}
