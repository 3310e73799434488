use robowire::animation::EyeSweep;

#[test]
fn sweep_counts_down_then_resets_to_top() {
    let sweep = EyeSweep::new(20, 1).unwrap();
    let mut y: i64 = 20;
    let mut seen = Vec::new();
    for _ in 0..21 {
        y = sweep.next(y);
        seen.push(y);
    }
    let expected: Vec<i64> = (1..=19).rev().chain([20, 19, 18]).collect();
    assert_eq!(seen[..19].to_vec(), expected[..19].to_vec());
    assert_eq!(seen[18], 1);
    assert_eq!(seen[19], 20);
    assert_eq!(seen[20], 19);
}

#[test]
fn sweep_has_no_drift_after_many_ticks() {
    let sweep = EyeSweep::new(20, 1).unwrap();
    assert_eq!(sweep.advance(20, 20), 20);
    assert_eq!(sweep.advance(20, 2000), 20);
    assert_eq!(sweep.advance(20, 2019), 1);
    assert_eq!(sweep.advance(20, 2021), 19);
    assert_eq!(sweep.advance(20, 0), 20);
}

#[test]
fn sweep_from_outside_the_range() {
    let sweep = EyeSweep::new(20, 1).unwrap();
    assert_eq!(sweep.next(-7), 20);
    assert_eq!(sweep.next(50), 49);
    assert_eq!(sweep.next(i64::MIN), 20);
}

#[test]
fn sweep_rejects_bottom_above_top() {
    assert!(EyeSweep::new(1, 20).is_none());
    let flat = EyeSweep::new(5, 5).unwrap();
    assert_eq!(flat.next(5), 5);
    assert_eq!(flat.top, 5);
    assert_eq!(flat.bottom, 5);
}
