use vstd::prelude::*;
use vstd::arithmetic::div_mod::{
    lemma_fundamental_div_mod, lemma_fundamental_div_mod_converse, lemma_mod_bound,
};
use crate::color::{blend_channel_exec, blend_color, Color, CHANNEL_ONE};

verus! {

/// Row-major index of the pixel at column `x`, row `y`.
pub open spec fn pixel_index(x: int, y: int, width: int) -> int {
    x + y * width
}

/// Number of whole rows a buffer of `len` cells holds at the given width.
pub open spec fn frame_height(len: int, width: int) -> int {
    len / width
}

/// A row-major index determines its column and row.
pub proof fn lemma_pixel_index_inverts(x: int, y: int, width: int)
    requires
        0 < width,
        0 <= x < width,
        0 <= y,
    ensures
        pixel_index(x, y, width) % width == x,
        pixel_index(x, y, width) / width == y,
{
    lemma_fundamental_div_mod_converse(x + y * width, width, y, x);
}

/// A pixel of a row that the buffer wholly contains lies inside the buffer.
pub proof fn lemma_pixel_index_in_bounds(x: int, y: int, width: int, len: int)
    requires
        0 < width,
        0 <= x < width,
        0 <= y < frame_height(len, width),
    ensures
        0 <= pixel_index(x, y, width) < len,
{
    let h = frame_height(len, width);
    lemma_fundamental_div_mod(len, width);
    lemma_mod_bound(len, width);
    assert(y * width <= (h - 1) * width) by (nonlinear_arith)
        requires
            y <= h - 1,
            0 < width,
    ;
    assert((h - 1) * width == width * h - width) by (nonlinear_arith);
}

/// Flat row-major address of a coordinate: `x + y*width`.
pub fn coord_to_index(x: usize, y: usize, width: usize) -> (i: usize)
    requires
        x + y * width <= usize::MAX,
    ensures
        i as int == pixel_index(x as int, y as int, width as int),
{
    x + y * width
}

/// The pixel blender: composites `color` at fractional coverage `num / den`
/// onto the stored pixel at `(x, y)`. The coordinate must already be in
/// range; the clipper is the sole gatekeeper that establishes this, and a
/// violation would be a programming-invariant break, so it is ruled out
/// here rather than handled.
pub fn set_pixel(
    color: Color,
    num: u32,
    den: u32,
    x: i32,
    y: i32,
    width: usize,
    buffer: &mut Vec<Color>,
)
    requires
        1 <= den,
        num <= den,
        0 <= x < width,
        0 <= y,
        pixel_index(x as int, y as int, width as int) < old(buffer)@.len(),
    ensures
        final(buffer)@ == old(buffer)@.update(
            pixel_index(x as int, y as int, width as int),
            blend_color(
                color,
                old(buffer)@[pixel_index(x as int, y as int, width as int)],
                num as int,
                den as int,
            ),
        ),
{
    let n = buffer.len();
    let xi = x as usize;
    let yi = y as usize;
    proof {
        assert(old(buffer)@.len() == n);
        assert(pixel_index(x as int, y as int, width as int) == x + y * width);
        assert((yi as int) * (width as int) == (y as int) * (width as int));
    }
    let index = xi + yi * width;
    let old_c = buffer[index];
    let r = blend_channel_exec(color.r, old_c.r, num, den);
    let g = blend_channel_exec(color.g, old_c.g, num, den);
    let b = blend_channel_exec(color.b, old_c.b, num, den);
    buffer.set(index, Color { r, g, b, a: CHANNEL_ONE });
}

/// Fills every cell of the framebuffer with `color`, exactly as given.
pub fn clear(color: Color, buffer: &mut Vec<Color>)
    ensures
        final(buffer)@.len() == old(buffer)@.len(),
        forall|i: int| 0 <= i < final(buffer)@.len() ==> final(buffer)@[i] == color,
{
    let mut i: usize = 0;
    let n = buffer.len();
    while i < n
        invariant
            i <= n,
            n == buffer@.len(),
            buffer@.len() == old(buffer)@.len(),
            forall|j: int| 0 <= j < i ==> buffer@[j] == color,
        decreases n - i,
    {
        buffer.set(i, color);
        i += 1;
    }
}

} // verus!
