use vstd::prelude::*;
use vstd::arithmetic::div_mod::{
    lemma_div_is_ordered, lemma_div_pos_is_pos, lemma_fundamental_div_mod_converse,
};
use vstd::arithmetic::mul::lemma_mul_inequality;
use vstd::string::StrSliceExecFns;
use crate::color::Color;
use crate::glyphs::{char_lines, glyph_segments, seg_in_glyph_box};
use crate::raster::{draw_line_spec, wu_line};

verus! {

/// Width of one drawn character: the size scaled down by the golden ratio,
/// approximated as 1618/1000 and chosen purely for pleasing proportions.
pub open spec fn char_width_of(size: int) -> int {
    size * 1000 / 1618
}

/// Blank advance after each character: the size scaled down by the golden
/// ratio twice.
pub open spec fn char_spacing_of(size: int) -> int {
    size * 1000000 / 2617924
}

/// A glyph-space coordinate laid out into pixels: scaled by the character
/// extent and rounded to the nearest pixel.
pub open spec fn scale_round(g: int, extent: int) -> int {
    (g * extent + 150) / 300
}

/// The framebuffer after drawing one glyph stroke whose character box starts
/// at `(ox, oy)` and is `cw` wide and `ch` tall.
pub open spec fn draw_segment_spec(
    buf: Seq<Color>,
    c: Color,
    ox: int,
    oy: int,
    cw: int,
    ch: int,
    s: ((i32, i32), (i32, i32)),
    w: int,
) -> Seq<Color> {
    draw_line_spec(
        buf,
        c,
        (ox + scale_round(s.0.0 as int, cw), oy + scale_round(s.0.1 as int, ch)),
        (ox + scale_round(s.1.0 as int, cw), oy + scale_round(s.1.1 as int, ch)),
        w,
    )
}

/// The framebuffer after drawing a list of glyph strokes in order.
pub open spec fn draw_segments_spec(
    buf: Seq<Color>,
    c: Color,
    ox: int,
    oy: int,
    cw: int,
    ch: int,
    segs: Seq<((i32, i32), (i32, i32))>,
    w: int,
) -> Seq<Color>
    decreases segs.len(),
{
    if segs.len() == 0 {
        buf
    } else {
        draw_segments_spec(
            draw_segment_spec(buf, c, ox, oy, cw, ch, segs[0], w),
            c,
            ox,
            oy,
            cw,
            ch,
            segs.skip(1),
            w,
        )
    }
}

/// The framebuffer after laying characters out left to right from `(ox,
/// oy)`: each character's strokes are mapped from glyph space into its pixel
/// box and drawn through the line rasterizer, and the pen advances by the
/// character width plus the spacing after every character, whether or not
/// the table knew it.
pub open spec fn draw_text_spec(
    buf: Seq<Color>,
    c: Color,
    ox: int,
    oy: int,
    size: int,
    chars: Seq<char>,
    w: int,
) -> Seq<Color>
    decreases chars.len(),
{
    if chars.len() == 0 {
        buf
    } else {
        draw_text_spec(
            draw_segments_spec(
                buf,
                c,
                ox,
                oy,
                char_width_of(size),
                size,
                glyph_segments(chars[0]),
                w,
            ),
            c,
            ox + char_width_of(size) + char_spacing_of(size),
            oy,
            size,
            chars.skip(1),
            w,
        )
    }
}

fn scale_coord(g: i32, extent: i32) -> (r: i32)
    requires
        0 <= g <= 450,
        0 <= extent <= 1_000_000,
    ensures
        r as int == scale_round(g as int, extent as int),
        0 <= r <= 2 * extent + 1,
{
    proof {
        let gi = g as int;
        let e = extent as int;
        lemma_div_pos_is_pos(gi * e + 150, 300);
        assert(gi * e <= 600 * e) by (nonlinear_arith)
            requires
                0 <= e,
                gi <= 600,
        ;
        lemma_div_is_ordered(gi * e + 150, 600 * e + 300, 300);
        assert(600 * e + 300 == (2 * e + 1) * 300 + 0) by (nonlinear_arith);
        lemma_fundamental_div_mod_converse(600 * e + 300, 300, 2 * e + 1, 0);
    }
    (((g as u64) * (extent as u64) + 150) / 300) as i32
}

#[verifier::loop_isolation(false)]
#[verifier::rlimit(100)]
fn draw_glyph(
    color: Color,
    ox: i32,
    oy: i32,
    cw: i32,
    chh: i32,
    segs: &Vec<((i32, i32), (i32, i32))>,
    width: usize,
    buffer: &mut Vec<Color>,
)
    requires
        1 <= width <= 0x7fff_ffff,
        width <= old(buffer)@.len() <= 0x7fff_ffff,
        0 <= cw <= 1_000_000,
        0 <= chh <= 1_000_000,
        forall|j: int| 0 <= j < segs@.len() ==> seg_in_glyph_box(#[trigger] segs@[j]),
        ox + 2 * cw + 1 <= 0x7fff_ffff,
        oy + 2 * chh + 1 <= 0x7fff_ffff,
    ensures
        final(buffer)@.len() == old(buffer)@.len(),
        final(buffer)@ == draw_segments_spec(
            old(buffer)@,
            color,
            ox as int,
            oy as int,
            cw as int,
            chh as int,
            segs@,
            width as int,
        ),
{
    let m = segs.len();
    let mut j: usize = 0;
    proof {
        assert(segs@.skip(0) =~= segs@);
    }
    while j < m
        invariant
            j <= m,
            buffer@.len() == old(buffer)@.len(),
            draw_segments_spec(
                buffer@,
                color,
                ox as int,
                oy as int,
                cw as int,
                chh as int,
                segs@.skip(j as int),
                width as int,
            ) == draw_segments_spec(
                old(buffer)@,
                color,
                ox as int,
                oy as int,
                cw as int,
                chh as int,
                segs@,
                width as int,
            ),
        decreases m - j,
    {
        let s = segs[j];
        let px0 = ox + scale_coord(s.0.0, cw);
        let py0 = oy + scale_coord(s.0.1, chh);
        let px1 = ox + scale_coord(s.1.0, cw);
        let py1 = oy + scale_coord(s.1.1, chh);
        let ghost before = buffer@;
        wu_line(color, (px0, py0), (px1, py1), width, buffer);
        proof {
            assert(segs@.skip(j as int)[0] == segs@[j as int]);
            assert(segs@.skip(j as int).skip(1) =~= segs@.skip(j as int + 1));
            assert(buffer@ == draw_segment_spec(
                before,
                color,
                ox as int,
                oy as int,
                cw as int,
                chh as int,
                segs@[j as int],
                width as int,
            ));
        }
        j += 1;
    }
    proof {
        assert(segs@.skip(m as int) =~= Seq::<((i32, i32), (i32, i32))>::empty());
    }
}

/// Lays the characters of `text` out left to right, the pen starting at
/// `origin`: each character occupies a box `char_width_of(size)` wide and
/// `size` tall, its strokes come from the glyph table (an unknown character
/// has none and leaves a blank), each stroke is rounded into pixel space and
/// drawn through the anti-aliased line rasterizer, and the pen advances by
/// the character width plus the spacing after every character. The result
/// is exactly `draw_text_spec`.
#[verifier::loop_isolation(false)]
#[verifier::rlimit(100)]
pub fn draw_text(
    color: Color,
    origin: (i32, i32),
    size: i32,
    text: &str,
    width: usize,
    buffer: &mut Vec<Color>,
)
    requires
        1 <= width <= 0x7fff_ffff,
        width <= old(buffer)@.len() <= 0x7fff_ffff,
        0 <= size <= 1_000_000,
        origin.1 + 2 * size + 1 <= 0x7fff_ffff,
        origin.0 + text@.len() * (char_width_of(size as int) + char_spacing_of(size as int)) + 2
            * char_width_of(size as int) + 1 <= 0x7fff_ffff,
    ensures
        final(buffer)@ == draw_text_spec(
            old(buffer)@,
            color,
            origin.0 as int,
            origin.1 as int,
            size as int,
            text@,
            width as int,
        ),
{
    proof {
        lemma_div_pos_is_pos(size * 1000, 1618);
        lemma_div_is_ordered(size * 1000, 1_000_000_000, 1618);
        lemma_div_pos_is_pos(size * 1000000, 2617924);
        lemma_div_is_ordered(size * 1000000, 1_000_000_000_000, 2617924);
    }
    let cw = ((size as u64) * 1000 / 1618) as i32;
    let sp = ((size as u64) * 1000000 / 2617924) as i32;
    let n = text.unicode_len();
    let ghost total = draw_text_spec(
        old(buffer)@,
        color,
        origin.0 as int,
        origin.1 as int,
        size as int,
        text@,
        width as int,
    );
    let mut ox = origin.0;
    let mut idx: usize = 0;
    proof {
        assert(text@.skip(0) =~= text@);
    }
    while idx < n
        invariant
            idx <= n,
            ox as int == origin.0 + idx * ((cw + sp) as int),
            buffer@.len() == old(buffer)@.len(),
            draw_text_spec(
                buffer@,
                color,
                ox as int,
                origin.1 as int,
                size as int,
                text@.skip(idx as int),
                width as int,
            ) == total,
        decreases n - idx,
    {
        proof {
            lemma_mul_inequality(idx as int, n as int, (cw + sp) as int);
            lemma_mul_inequality(idx as int + 1, n as int, (cw + sp) as int);
            assert((idx as int + 1) * ((cw + sp) as int) == idx as int * ((cw + sp) as int) + (cw
                + sp) as int) by (nonlinear_arith);
        }
        let ch = text.get_char(idx);
        let segs = char_lines(ch);
        draw_glyph(color, ox, origin.1, cw, size, &segs, width, buffer);
        proof {
            assert(text@.skip(idx as int)[0] == text@[idx as int]);
            assert(text@.skip(idx as int).skip(1) =~= text@.skip(idx as int + 1));
        }
        ox = ox + cw + sp;
        idx += 1;
    }
    proof {
        assert(text@.skip(n as int) =~= Seq::<char>::empty());
    }
}

} // verus!
