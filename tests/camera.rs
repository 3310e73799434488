use robowire::camera::{classify_basis, Alignment, Degeneracy};

#[test]
fn eye_straight_above_target_gives_identity_yaw() {
    // eye (0, 5, 0), target (0, 0, 0): dx = 0, dy = -5, dz = 0
    let b = classify_basis(true, false, true);
    assert_eq!(b.yaw, Alignment::Degenerate(Degeneracy::Vertical));
    assert!(b.yaw.is_identity());
    assert_eq!(b.pitch, Alignment::Aligned);
    assert!(!b.pitch.is_identity());
}

#[test]
fn eye_on_target_gives_identity_for_both() {
    let b = classify_basis(true, true, true);
    assert_eq!(b.yaw, Alignment::Degenerate(Degeneracy::Coincident));
    assert_eq!(b.pitch, Alignment::Degenerate(Degeneracy::Coincident));
}

#[test]
fn general_offset_aligns_both() {
    for (dx, dy, dz) in [(false, false, false), (true, false, false), (false, true, true), (false, true, false)] {
        let b = classify_basis(dx, dy, dz);
        assert_eq!(b.yaw, Alignment::Aligned);
        assert_eq!(b.pitch, Alignment::Aligned);
    }
}
