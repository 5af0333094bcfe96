use graphics_vid::color::{Color, CHANNEL_ONE};
use graphics_vid::glyphs::char_lines;
use graphics_vid::text::draw_text;

const WHITE: Color = Color { r: CHANNEL_ONE, g: CHANNEL_ONE, b: CHANNEL_ONE, a: CHANNEL_ONE };

fn black_buffer(width: usize, height: usize) -> Vec<Color> {
    vec![Color { r: 0, g: 0, b: 0, a: 0 }; width * height]
}

#[test]
fn glyph_table_lists_strokes_in_glyph_space() {
    let a = char_lines('A');
    assert_eq!(
        a,
        vec![((150, 0), (0, 300)), ((150, 0), (300, 300)), ((50, 200), (250, 200))]
    );
    assert_eq!(char_lines('l'), vec![((150, 0), (150, 300))]);
    assert_eq!(char_lines(' '), vec![]);
}

#[test]
fn unknown_glyph_renders_as_a_blank_advance() {
    let width = 16;
    let mut buffer = black_buffer(width, 8);
    draw_text(WHITE, (1, 1), 3, "\u{1}\u{7f}", width, &mut buffer);
    for p in &buffer {
        assert_eq!(*p, Color { r: 0, g: 0, b: 0, a: 0 });
    }
}

#[test]
fn text_lays_out_characters_with_a_fixed_advance() {
    // At size 3 the character box is 1 pixel wide with 1 pixel of spacing,
    // so the single vertical stroke of each 'l' lands one pixel into its
    // box, two pixels apart: columns 2 and 4, rows 1 through 4.
    let width = 16;
    let height = 8;
    let mut buffer = black_buffer(width, height);
    draw_text(WHITE, (1, 1), 3, "ll", width, &mut buffer);
    for y in 0..height {
        for x in 0..width {
            let p = buffer[x + y * width];
            if (x == 2 || x == 4) && (1..=4).contains(&y) {
                assert_eq!(p, WHITE, "pixel ({x},{y})");
            } else {
                assert_eq!(p, Color { r: 0, g: 0, b: 0, a: 0 }, "pixel ({x},{y})");
            }
        }
    }
}

#[test]
fn text_draws_axis_aligned_strokes_exactly() {
    // 'L' is a vertical stroke down the left edge and a horizontal stroke
    // along the baseline; at size 6 the box is 3 wide and 6 tall.
    let width = 8;
    let height = 8;
    let mut buffer = black_buffer(width, height);
    draw_text(WHITE, (0, 0), 6, "L", width, &mut buffer);
    for y in 0..height {
        for x in 0..width {
            let p = buffer[x + y * width];
            let on_stroke = (x == 0 && y <= 6) || (y == 6 && x <= 3);
            if on_stroke {
                assert_eq!(p, WHITE, "pixel ({x},{y})");
            } else {
                assert_eq!(p, Color { r: 0, g: 0, b: 0, a: 0 }, "pixel ({x},{y})");
            }
        }
    }
}

#[test]
fn text_off_the_canvas_is_clipped_away() {
    let width = 16;
    let mut buffer = black_buffer(width, 8);
    draw_text(WHITE, (-500, -500), 40, "W", width, &mut buffer);
    for p in &buffer {
        assert_eq!(*p, Color { r: 0, g: 0, b: 0, a: 0 });
    }
}
