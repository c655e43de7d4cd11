use pocketty::frame::StereoFrame;
use pocketty::ring::PreRollRing;

fn frame(n: u32) -> StereoFrame {
    StereoFrame { left: (n as f32).to_bits(), right: (-(n as f32)).to_bits() }
}

#[test]
fn ring_below_capacity_keeps_everything_in_order() {
    let mut ring = PreRollRing::new(4);
    ring.push(frame(1));
    ring.push(frame(2));
    ring.push(frame(3));
    assert_eq!(ring.len(), 3);
    assert_eq!(ring.drain_ordered(), vec![frame(1), frame(2), frame(3)]);
}

#[test]
fn ring_overfilled_keeps_last_capacity_frames() {
    let capacity = 5usize;
    for extra in 1..12u32 {
        let mut ring = PreRollRing::new(capacity);
        let total = capacity as u32 + extra;
        for n in 0..total {
            ring.push(frame(n));
        }
        let expected: Vec<StereoFrame> = (total - capacity as u32..total).map(frame).collect();
        let drained = ring.drain_ordered();
        assert_eq!(drained.len(), capacity);
        assert_eq!(drained, expected);
    }
}

#[test]
fn ring_exactly_full_has_not_wrapped() {
    let mut ring = PreRollRing::new(3);
    for n in 0..3 {
        ring.push(frame(n));
    }
    assert_eq!(ring.drain_ordered(), vec![frame(0), frame(1), frame(2)]);
}

#[test]
fn ring_of_capacity_zero_retains_nothing() {
    let mut ring = PreRollRing::new(0);
    ring.push(frame(7));
    ring.push(frame(8));
    assert_eq!(ring.len(), 0);
    assert!(ring.drain_ordered().is_empty());
}

#[test]
fn ring_drain_does_not_consume() {
    let mut ring = PreRollRing::new(2);
    ring.push(frame(1));
    ring.push(frame(2));
    ring.push(frame(3));
    assert_eq!(ring.drain_ordered(), vec![frame(2), frame(3)]);
    assert_eq!(ring.drain_ordered(), vec![frame(2), frame(3)]);
}
