use gsplat_render_wgpu::evidence::ring::{BoundedEvidenceRing, EVIDENCE_RING_CAPACITY};

#[test]
fn pop_is_fifo() {
    let mut ring = BoundedEvidenceRing::new();
    ring.push(3);
    ring.push(1);
    ring.push(2);

    assert_eq!(ring.pop(), Some(3));
    assert_eq!(ring.pop(), Some(1));
    assert_eq!(ring.pop(), Some(2));
    assert_eq!(ring.pop(), None);
}

#[test]
fn retains_exactly_the_fixed_capacity() {
    let mut ring = BoundedEvidenceRing::new();
    for value in 0..EVIDENCE_RING_CAPACITY {
        ring.push(value);
    }

    assert_eq!(ring.len(), EVIDENCE_RING_CAPACITY);
}

#[test]
fn sixty_fifth_push_drops_the_oldest_item() {
    let mut ring = BoundedEvidenceRing::new();
    for value in 0..=EVIDENCE_RING_CAPACITY {
        ring.push(value);
    }

    assert_eq!(ring.len(), EVIDENCE_RING_CAPACITY);
    assert_eq!(ring.pop(), Some(1));
    assert_eq!(ring.drain().last(), Some(&EVIDENCE_RING_CAPACITY));
}

#[test]
fn drain_is_fifo_and_empties_the_ring() {
    let mut ring = BoundedEvidenceRing::new();
    ring.push(8);
    ring.push(5);
    ring.push(13);

    assert_eq!(ring.drain(), vec![8, 5, 13]);
    assert_eq!(ring.pop(), None);
}

#[test]
fn ring_keeps_the_newest_window_after_many_pushes() {
    let mut ring = BoundedEvidenceRing::new();
    for value in 0..200_usize {
        ring.push(value);
        assert!(ring.len() <= EVIDENCE_RING_CAPACITY);
    }
    let kept = ring.drain();
    assert_eq!(kept.len(), EVIDENCE_RING_CAPACITY);
    assert_eq!(kept.first(), Some(&136));
    assert_eq!(kept.last(), Some(&199));
}
