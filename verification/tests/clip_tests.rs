use graphics_vid::clip::{clamp, in_range, line_segment_in_rect};

#[test]
fn clip_keeps_inside_segment_unchanged() {
    // Both endpoints already inside the rectangle: the fast path returns
    // them exactly as given.
    let r = line_segment_in_rect((3, 4), (60, 40), 71, 43);
    assert_eq!(r, Some(((3, 4), (60, 40))));
}

#[test]
fn clip_keeps_degenerate_inside_point() {
    let r = line_segment_in_rect((5, 5), (5, 5), 71, 43);
    assert_eq!(r, Some(((5, 5), (5, 5))));
}

#[test]
fn clip_rejects_segment_left_of_canvas() {
    // Both endpoints with negative x on a positive-width canvas, not
    // horizontal: wholly outside, so nothing survives.
    let r = line_segment_in_rect((-5, -3), (-1, 10), 71, 43);
    assert_eq!(r, None);
}

#[test]
fn clip_rejects_segment_right_of_canvas() {
    let r = line_segment_in_rect((100, 0), (90, 42), 71, 43);
    assert_eq!(r, None);
}

#[test]
fn clip_rejects_segment_above_and_below() {
    assert_eq!(line_segment_in_rect((3, -9), (60, -1), 71, 43), None);
    assert_eq!(line_segment_in_rect((3, 50), (60, 43), 71, 43), None);
}

#[test]
fn clip_rejects_vertical_segment_off_the_side() {
    assert_eq!(line_segment_in_rect((-2, 5), (-2, 30), 71, 43), None);
    assert_eq!(line_segment_in_rect((71, 5), (71, 30), 71, 43), None);
}

#[test]
fn clip_rejects_horizontal_segment_off_the_top() {
    assert_eq!(line_segment_in_rect((5, -1), (30, -1), 71, 43), None);
}

#[test]
fn clip_clamps_vertical_segment_overhang() {
    // A vertical segment whose x is in range has its y coordinates clamped
    // to the frame.
    let r = line_segment_in_rect((10, -5), (10, 100), 71, 43);
    assert_eq!(r, Some(((10, 0), (10, 42))));
}

#[test]
fn clip_clamps_horizontal_segment_overhang() {
    let r = line_segment_in_rect((-5, 7), (100, 7), 71, 43);
    assert_eq!(r, Some(((0, 7), (70, 7))));
}

#[test]
fn clip_cuts_general_segment_at_the_left_edge() {
    // The carrier line y = x + 5 enters the 71 by 43 frame at (0, 5) and
    // leaves through the bottom edge y = 42 at x = 37.
    let r = line_segment_in_rect((-10, -5), (80, 85), 71, 43);
    assert_eq!(r, Some(((0, 5), (37, 42))));
}

#[test]
fn clip_result_stays_inside_the_frame() {
    let w = 31;
    let h = 17;
    for &p0 in &[(-50, -3), (5, 5), (40, 9), (-7, 60), (12, -33), (30, 16)] {
        for &p1 in &[(77, 12), (2, 2), (-1, -1), (55, -40), (30, 16), (0, 90)] {
            if let Some(((x0, y0), (x1, y1))) = line_segment_in_rect(p0, p1, w, h) {
                let wi = w as i32;
                let hi = h as i32;
                assert!(0 <= x0 && x0 < wi && 0 <= x1 && x1 < wi);
                assert!(0 <= y0 && y0 < hi && 0 <= y1 && y1 < hi);
            }
        }
    }
}

#[test]
fn clamp_and_in_range_behave_exactly() {
    assert_eq!(clamp(5, 0, 10), 5);
    assert_eq!(clamp(-3, 0, 10), 0);
    assert_eq!(clamp(42, 0, 10), 10);
    assert!(in_range(0, 0, 10));
    assert!(in_range(10, 0, 10));
    assert!(!in_range(11, 0, 10));
    assert!(!in_range(-1, 0, 10));
}
