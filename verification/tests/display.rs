use microclaw::display::{clamp_and_validate_touch, in_safe_circle, DisplayPoint};

#[test]
fn clamp_keeps_in_bounds() {
    assert_eq!(clamp_and_validate_touch(0, 0), None);
    assert_eq!(clamp_and_validate_touch(360, 360), None);
}

#[test]
fn clamp_rejects_outside_circle() {
    assert_eq!(clamp_and_validate_touch(0, 180), None);
    assert_eq!(clamp_and_validate_touch(359, 180), None);
    assert!(clamp_and_validate_touch(180, 0).is_none());
}

#[test]
fn clamp_accepts_central_pixel() {
    assert_eq!(
        clamp_and_validate_touch(180, 180),
        Some(DisplayPoint { x: 180, y: 180 })
    );
}

#[test]
fn safe_circle_border_is_inside() {
    assert!(in_safe_circle(340, 180));
    assert!(in_safe_circle(20, 180));
    assert!(in_safe_circle(180, 340));
    assert!(in_safe_circle(180, 20));
    assert!(!in_safe_circle(341, 180));
    assert!(!in_safe_circle(19, 180));
    // 96^2 + 128^2 = 160^2: a point exactly on the circle, off the axes
    assert!(in_safe_circle(276, 308));
    assert!(!in_safe_circle(277, 308));
}

#[test]
fn clamp_pulls_far_samples_onto_the_canvas_first() {
    // x is clamped to 359 before the circle test: (359, 180) lies outside
    assert_eq!(clamp_and_validate_touch(65535, 180), None);
    assert_eq!(
        clamp_and_validate_touch(340, 180),
        Some(DisplayPoint { x: 340, y: 180 })
    );
    assert_eq!(
        clamp_and_validate_touch(180, 340),
        Some(DisplayPoint { x: 180, y: 340 })
    );
}

#[test]
fn safe_circle_never_overflows_on_extreme_coordinates() {
    assert!(!in_safe_circle(65535, 65535));
    assert!(!in_safe_circle(0, 65535));
    assert!(!in_safe_circle(0, 0));
}
