use graphics_vid::color::{Color, CHANNEL_ONE};
use graphics_vid::framebuffer::{clear, coord_to_index, set_pixel};
use graphics_vid::raster::wu_line;

fn black_buffer(width: usize, height: usize) -> Vec<Color> {
    vec![Color { r: 0, g: 0, b: 0, a: 0 }; width * height]
}

const WHITE: Color = Color { r: CHANNEL_ONE, g: CHANNEL_ONE, b: CHANNEL_ONE, a: CHANNEL_ONE };

#[test]
fn horizontal_segment_paints_exactly_its_row_span() {
    // The segment (2,5) .. (6,5) paints exactly x in 2..=6 at y == 5, at
    // full coverage, and nothing else.
    let width = 16;
    let height = 8;
    let mut buffer = black_buffer(width, height);
    wu_line(WHITE, (2, 5), (6, 5), width, &mut buffer);
    for y in 0..height {
        for x in 0..width {
            let p = buffer[x + y * width];
            if y == 5 && (2..=6).contains(&x) {
                assert_eq!(p, WHITE, "pixel ({x},{y})");
            } else {
                assert_eq!(p, Color { r: 0, g: 0, b: 0, a: 0 }, "pixel ({x},{y})");
            }
        }
    }
}

#[test]
fn diagonal_segment_paints_exactly_its_diagonal() {
    // The segment (0,0) .. (4,4) paints exactly the five pixels (0,0),
    // (1,1), (2,2), (3,3), (4,4) at full coverage, with no anti-aliased
    // neighbours touched.
    let width = 16;
    let height = 8;
    let mut buffer = black_buffer(width, height);
    wu_line(WHITE, (0, 0), (4, 4), width, &mut buffer);
    for y in 0..height {
        for x in 0..width {
            let p = buffer[x + y * width];
            if x == y && x <= 4 {
                assert_eq!(p, WHITE, "pixel ({x},{y})");
            } else {
                assert_eq!(p, Color { r: 0, g: 0, b: 0, a: 0 }, "pixel ({x},{y})");
            }
        }
    }
}

#[test]
fn vertical_segment_paints_its_column_span() {
    let width = 16;
    let height = 8;
    let mut buffer = black_buffer(width, height);
    wu_line(WHITE, (9, 6), (9, 1), width, &mut buffer);
    for y in 0..height {
        for x in 0..width {
            let p = buffer[x + y * width];
            if x == 9 && (1..=6).contains(&y) {
                assert_eq!(p, WHITE, "pixel ({x},{y})");
            } else {
                assert_eq!(p, Color { r: 0, g: 0, b: 0, a: 0 }, "pixel ({x},{y})");
            }
        }
    }
}

#[test]
fn degenerate_segment_paints_a_single_point() {
    let width = 16;
    let height = 8;
    let mut buffer = black_buffer(width, height);
    wu_line(WHITE, (7, 3), (7, 3), width, &mut buffer);
    for y in 0..height {
        for x in 0..width {
            let p = buffer[x + y * width];
            if x == 7 && y == 3 {
                assert_eq!(p, WHITE);
            } else {
                assert_eq!(p, Color { r: 0, g: 0, b: 0, a: 0 });
            }
        }
    }
}

#[test]
fn x_major_coverage_pairs_sum_to_one() {
    // For an x-major segment the two pixels written in each column carry
    // coverages that sum to exactly one pixel, so on a black background the
    // white channel values of the pair sum to the full channel give or take
    // one rounding unit.
    let width = 16;
    let height = 8;
    let mut buffer = black_buffer(width, height);
    wu_line(WHITE, (0, 0), (10, 3), width, &mut buffer);
    for x in 0..10usize {
        let mut column_sum: u32 = 0;
        for y in 0..height {
            column_sum += buffer[x + y * width].r as u32;
        }
        assert!(
            column_sum == 65534 || column_sum == 65535,
            "column {x} sums to {column_sum}"
        );
    }
    // The final endpoint is painted at full coverage as the terminating step.
    assert_eq!(buffer[10 + 3 * width], WHITE);
}

#[test]
fn y_major_coverage_pairs_sum_to_one() {
    let width = 16;
    let height = 16;
    let mut buffer = black_buffer(width, height);
    wu_line(WHITE, (2, 1), (5, 11), width, &mut buffer);
    for k in 0..10usize {
        let y = 1 + k;
        let mut row_sum: u32 = 0;
        for x in 0..width {
            row_sum += buffer[x + y * width].r as u32;
        }
        assert!(row_sum == 65534 || row_sum == 65535, "row {y} sums to {row_sum}");
    }
    assert_eq!(buffer[5 + 11 * width], WHITE);
}

#[test]
fn x_major_exact_coverage_values() {
    // For the segment (0,0) .. (10,3) the error-accumulation walk gives, in
    // column 1, coverage 7/10 on row 0 and 3/10 on row 1.
    let width = 16;
    let height = 8;
    let mut buffer = black_buffer(width, height);
    wu_line(WHITE, (0, 0), (10, 3), width, &mut buffer);
    assert_eq!(buffer[1].r as u32, 65535 * 7 / 10);
    assert_eq!(buffer[1 + width].r as u32, 65535 * 3 / 10);
    // Column 0 has all of its coverage on the walked row; the neighbour is
    // written at coverage zero, which keeps its light channels and only
    // forces the stored alpha full.
    assert_eq!(buffer[0], WHITE);
    assert_eq!(buffer[width], Color { r: 0, g: 0, b: 0, a: CHANNEL_ONE });
}

#[test]
fn wholly_outside_segment_draws_nothing() {
    let width = 16;
    let height = 8;
    let mut buffer = black_buffer(width, height);
    wu_line(WHITE, (-9, -1), (-2, -7), width, &mut buffer);
    for p in &buffer {
        assert_eq!(*p, Color { r: 0, g: 0, b: 0, a: 0 });
    }
}

#[test]
fn blending_composites_at_fractional_coverage() {
    // White at coverage 1/2 over black gives the exact rounded-down
    // mid-value on each light channel and forces the stored alpha full.
    let width = 4;
    let mut buffer = black_buffer(width, 2);
    set_pixel(WHITE, 1, 2, 2, 1, width, &mut buffer);
    assert_eq!(
        buffer[2 + width],
        Color { r: 32767, g: 32767, b: 32767, a: CHANNEL_ONE }
    );
}

#[test]
fn blending_at_full_coverage_replaces_the_pixel() {
    let width = 4;
    let mut buffer = vec![Color { r: 11, g: 22, b: 33, a: CHANNEL_ONE }; 8];
    set_pixel(Color { r: 1000, g: 2000, b: 3000, a: 0 }, 7, 7, 3, 1, width, &mut buffer);
    assert_eq!(buffer[3 + width], Color { r: 1000, g: 2000, b: 3000, a: CHANNEL_ONE });
}

#[test]
fn clear_fills_every_cell() {
    let mut buffer = black_buffer(5, 3);
    let c = Color { r: 1, g: 2, b: 3, a: 4 };
    clear(c, &mut buffer);
    assert_eq!(buffer.len(), 15);
    for p in &buffer {
        assert_eq!(*p, c);
    }
}

#[test]
fn coord_to_index_is_row_major() {
    assert_eq!(coord_to_index(3, 2, 10), 23);
    assert_eq!(coord_to_index(0, 0, 10), 0);
}
