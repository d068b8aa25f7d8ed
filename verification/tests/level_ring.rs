use shittuber::ring::{LevelRing, BUFFER_SIZE};

#[test]
fn new_ring_is_filled() {
    let r = LevelRing::new(0.0f32);
    assert_eq!(r.values().len(), BUFFER_SIZE);
    assert!(r.values().iter().all(|&v| v == 0.0));
}

#[test]
fn levels_are_written_slot_after_slot_and_wrap() {
    let mut r = LevelRing::new(0u32);
    r.push(1);
    assert_eq!(r.values(), &vec![1, 0, 0]);
    r.push(2);
    r.push(3);
    assert_eq!(r.values(), &vec![1, 2, 3]);
    r.push(4);
    assert_eq!(r.values(), &vec![4, 2, 3]);
}

#[test]
fn ring_holds_the_latest_levels() {
    let mut r = LevelRing::new(0.0f32);
    for v in [0.1f32, 0.2, 0.3, 0.4, 0.5] {
        r.push(v);
    }
    let mut got: Vec<f32> = r.values().clone();
    got.sort_by(|a, b| a.partial_cmp(b).unwrap());
    assert_eq!(got, vec![0.3, 0.4, 0.5]);
    assert_eq!(r.values(), &vec![0.4, 0.5, 0.3]);
}
