use vstd::prelude::*;
use vstd::arithmetic::div_mod::{
    lemma_div_by_multiple, lemma_div_is_ordered, lemma_div_pos_is_pos, lemma_fundamental_div_mod,
    lemma_fundamental_div_mod_converse, lemma_mod_bound,
};
use crate::clip::{clip_spec, line_segment_in_rect};
use crate::color::{blend_color, lemma_blend_full, Color};
use crate::framebuffer::{
    frame_height, lemma_pixel_index_in_bounds, lemma_pixel_index_inverts, pixel_index, set_pixel,
};

verus! {

/// Magnitude of a direction component.
pub open spec fn abs_of(v: int) -> int {
    if v < 0 {
        -v
    } else {
        v
    }
}

/// Unit step of a direction component (a zero component steps positively,
/// which the rasterizer never relies on).
pub open spec fn sign_of(v: int) -> int {
    if v < 0 {
        -1
    } else {
        1
    }
}

/// Coverage numerator written to the pixel *beside* the walked one at step
/// `k` of an anti-aliased walk whose major extent is `den` and whose minor
/// extent is `num_step`: the accumulated error `(k*num_step) mod den`, as a
/// fraction of `den`.
pub open spec fn aa_cov_adjacent(k: int, den: int, num_step: int) -> int {
    (k * num_step) % den
}

/// Coverage numerator written to the walked pixel itself at step `k`: the
/// remainder of the full pixel, so that the pair always sums to `den`.
pub open spec fn aa_cov_current(k: int, den: int, num_step: int) -> int {
    den - aa_cov_adjacent(k, den, num_step)
}

/// How far the walk has drifted along the minor axis after `k` steps.
pub open spec fn aa_drift(k: int, den: int, num_step: int) -> int {
    (k * num_step) / den
}

/// Law: at every step of an anti-aliased walk the two coverage fractions
/// written — `aa_cov_adjacent(k, den, m) / den` to the neighbouring pixel and
/// `aa_cov_current(k, den, m) / den` to the walked pixel — are both genuine
/// coverages and sum to exactly one whole pixel. The integer coverage
/// arithmetic makes the conservation exact, not approximate.
pub proof fn lemma_energy_conservation(k: int, den: int, m: int)
    requires
        0 < den,
    ensures
        0 <= aa_cov_adjacent(k, den, m) < den,
        0 <= aa_cov_current(k, den, m) <= den,
        aa_cov_adjacent(k, den, m) + aa_cov_current(k, den, m) == den,
{
    lemma_mod_bound(k * m, den);
}

/// Pixel `i` after painting a vertical stroke of column `x0` from row `ylo`
/// to row `yhi` at full coverage.
pub open spec fn vertical_at(
    buf: Seq<Color>,
    c: Color,
    x0: int,
    ylo: int,
    yhi: int,
    w: int,
    i: int,
) -> Color {
    if i % w == x0 && ylo <= i / w <= yhi {
        c.solid()
    } else {
        buf[i]
    }
}

/// Pixel `i` after painting a horizontal stroke of row `y0` from column
/// `xlo` to column `xhi` at full coverage.
pub open spec fn horizontal_at(
    buf: Seq<Color>,
    c: Color,
    y0: int,
    xlo: int,
    xhi: int,
    w: int,
    i: int,
) -> Color {
    if i / w == y0 && xlo <= i % w <= xhi {
        c.solid()
    } else {
        buf[i]
    }
}

/// Pixel `i` after painting an exact diagonal of `n + 1` pixels from
/// `(x0, y0)`, stepping `(xdir, ydir)` once per unit, at full coverage.
pub open spec fn diagonal_at(
    buf: Seq<Color>,
    c: Color,
    x0: int,
    y0: int,
    xdir: int,
    ydir: int,
    n: int,
    w: int,
    i: int,
) -> Color {
    let k = xdir * (i % w - x0);
    if 0 <= k <= n && i / w == y0 + k * ydir {
        c.solid()
    } else {
        buf[i]
    }
}

/// Pixel `i` after the anti-aliased x-major walk (final endpoint excluded):
/// step `k` paints column `x0 + k*xdir` at rows `y0 + ydir*aa_drift` (the
/// walked row, at the remaining coverage) and one row further (at the
/// accumulated-error coverage).
pub open spec fn xmajor_at(
    buf: Seq<Color>,
    c: Color,
    x0: int,
    y0: int,
    xdir: int,
    ydir: int,
    adx: int,
    ady: int,
    w: int,
    i: int,
) -> Color {
    let k = xdir * (i % w - x0);
    let y = i / w;
    if 0 <= k < adx && y == y0 + ydir * (aa_drift(k, adx, ady) + 1) {
        blend_color(c, buf[i], aa_cov_adjacent(k, adx, ady), adx)
    } else if 0 <= k < adx && y == y0 + ydir * aa_drift(k, adx, ady) {
        blend_color(c, buf[i], aa_cov_current(k, adx, ady), adx)
    } else {
        buf[i]
    }
}

/// Pixel `i` after the anti-aliased y-major walk (final endpoint excluded),
/// symmetric to `xmajor_at` with the axes swapped.
pub open spec fn ymajor_at(
    buf: Seq<Color>,
    c: Color,
    x0: int,
    y0: int,
    xdir: int,
    ydir: int,
    adx: int,
    ady: int,
    w: int,
    i: int,
) -> Color {
    let k = ydir * (i / w - y0);
    let x = i % w;
    if 0 <= k < ady && x == x0 + xdir * (aa_drift(k, ady, adx) + 1) {
        blend_color(c, buf[i], aa_cov_adjacent(k, ady, adx), ady)
    } else if 0 <= k < ady && x == x0 + xdir * aa_drift(k, ady, adx) {
        blend_color(c, buf[i], aa_cov_current(k, ady, adx), ady)
    } else {
        buf[i]
    }
}

/// Pixel `i` after rasterizing the already-clipped segment `(x0, y0)` to
/// `(x1, y1)`: vertical, horizontal and exact-diagonal segments paint every
/// pixel they cross at full coverage; any other segment walks its major axis
/// distributing each pixel's coverage over the two adjacent rows or columns,
/// and its final endpoint is painted at full coverage as the terminating
/// step.
pub open spec fn draw_clipped_at(
    buf: Seq<Color>,
    c: Color,
    x0: int,
    y0: int,
    x1: int,
    y1: int,
    w: int,
    i: int,
) -> Color {
    let dx = x1 - x0;
    let dy = y1 - y0;
    if dx == 0 {
        vertical_at(
            buf,
            c,
            x0,
            if y0 < y1 {
                y0
            } else {
                y1
            },
            if y0 < y1 {
                y1
            } else {
                y0
            },
            w,
            i,
        )
    } else if dy == 0 {
        horizontal_at(
            buf,
            c,
            y0,
            if x0 < x1 {
                x0
            } else {
                x1
            },
            if x0 < x1 {
                x1
            } else {
                x0
            },
            w,
            i,
        )
    } else if abs_of(dx) == abs_of(dy) {
        diagonal_at(buf, c, x0, y0, sign_of(dx), sign_of(dy), abs_of(dx), w, i)
    } else if abs_of(dx) > abs_of(dy) {
        if i == pixel_index(x1, y1, w) {
            c.solid()
        } else {
            xmajor_at(buf, c, x0, y0, sign_of(dx), sign_of(dy), abs_of(dx), abs_of(dy), w, i)
        }
    } else {
        if i == pixel_index(x1, y1, w) {
            c.solid()
        } else {
            ymajor_at(buf, c, x0, y0, sign_of(dx), sign_of(dy), abs_of(dx), abs_of(dy), w, i)
        }
    }
}

/// The whole framebuffer after drawing the segment `p0 .. p1`: the clipper
/// first reduces the segment to its in-frame part (drawing nothing when it
/// lies wholly outside), and the rasterizer then paints that part.
pub open spec fn draw_line_spec(
    buf: Seq<Color>,
    c: Color,
    p0: (int, int),
    p1: (int, int),
    w: int,
) -> Seq<Color> {
    match clip_spec(p0, p1, w, frame_height(buf.len() as int, w)) {
        None => buf,
        Some((a, b)) => Seq::new(
            buf.len(),
            |i: int| draw_clipped_at(buf, c, a.0, a.1, b.0, b.1, w, i),
        ),
    }
}

/// Law: drawing an axis-aligned horizontal segment whose endpoints lie in
/// the frame paints exactly the pixels of its row between its endpoint
/// columns, at full coverage, and leaves every other pixel unchanged.
pub proof fn lemma_horizontal_exactness(buf: Seq<Color>, c: Color, x0: int, x1: int, y: int, w: int)
    requires
        1 <= w,
        0 <= x0 < w,
        0 <= x1 < w,
        0 <= y < frame_height(buf.len() as int, w),
    ensures
        draw_line_spec(buf, c, (x0, y), (x1, y), w).len() == buf.len(),
        forall|i: int|
            0 <= i < buf.len() ==> draw_line_spec(buf, c, (x0, y), (x1, y), w)[i] == (if i / w == y
                && (if x0 < x1 {
                x0
            } else {
                x1
            }) <= i % w <= (if x0 < x1 {
                x1
            } else {
                x0
            }) {
                c.solid()
            } else {
                buf[i]
            }),
{
}

/// Law: drawing an exact diagonal segment whose endpoints lie in the frame
/// paints exactly its run of diagonal pixels at full coverage, and touches
/// no anti-aliased neighbour.
pub proof fn lemma_diagonal_exactness(
    buf: Seq<Color>,
    c: Color,
    x0: int,
    y0: int,
    x1: int,
    y1: int,
    w: int,
)
    requires
        1 <= w,
        0 <= x0 < w,
        0 <= x1 < w,
        0 <= y0 < frame_height(buf.len() as int, w),
        0 <= y1 < frame_height(buf.len() as int, w),
        x0 != x1,
        abs_of(x1 - x0) == abs_of(y1 - y0),
    ensures
        draw_line_spec(buf, c, (x0, y0), (x1, y1), w).len() == buf.len(),
        forall|i: int|
            0 <= i < buf.len() ==> draw_line_spec(buf, c, (x0, y0), (x1, y1), w)[i] == ({
                let k = sign_of(x1 - x0) * (i % w - x0);
                if 0 <= k <= abs_of(x1 - x0) && i / w == y0 + k * sign_of(y1 - y0) {
                    c.solid()
                } else {
                    buf[i]
                }
            }),
{
}

/// Both endpoints of a clipped segment lie inside the frame.
pub open spec fn seg_in_frame(x0: int, y0: int, x1: int, y1: int, w: int, h: int) -> bool {
    0 <= x0 < w && 0 <= y0 < h && 0 <= x1 < w && 0 <= y1 < h
}

/// A row-major index whose column and row match is the index of that pixel.
proof fn lemma_index_unique(x: int, y: int, w: int, i: int)
    requires
        0 < w,
        0 <= i,
        i % w == x,
        i / w == y,
    ensures
        i == pixel_index(x, y, w),
{
    lemma_fundamental_div_mod(i, w);
    assert(w * (i / w) == (i / w) * w) by (nonlinear_arith);
}

#[verifier::loop_isolation(false)]
fn draw_vertical(c: Color, x: i32, ylo: i32, yhi: i32, width: usize, buffer: &mut Vec<Color>)
    requires
        1 <= width <= 0x7fff_ffff,
        old(buffer)@.len() <= 0x7fff_ffff,
        ylo <= yhi,
        seg_in_frame(
            x as int,
            ylo as int,
            x as int,
            yhi as int,
            width as int,
            frame_height(old(buffer)@.len() as int, width as int),
        ),
    ensures
        final(buffer)@.len() == old(buffer)@.len(),
        forall|i: int|
            0 <= i < old(buffer)@.len() ==> final(buffer)@[i] == vertical_at(
                old(buffer)@,
                c,
                x as int,
                ylo as int,
                yhi as int,
                width as int,
                i,
            ),
{
    let mut y = ylo;
    while y <= yhi
        invariant
            ylo <= y <= yhi + 1,
            buffer@.len() == old(buffer)@.len(),
            forall|i: int|
                0 <= i < old(buffer)@.len() ==> buffer@[i] == (if i % (width as int) == x as int
                    && ylo <= i / (width as int) < y {
                    c.solid()
                } else {
                    old(buffer)@[i]
                }),
        decreases yhi + 1 - y,
    {
        proof {
            lemma_pixel_index_in_bounds(
                x as int,
                y as int,
                width as int,
                old(buffer)@.len() as int,
            );
            lemma_pixel_index_inverts(x as int, y as int, width as int);
        }
        let ghost prev = buffer@;
        set_pixel(c, 1, 1, x, y, width, buffer);
        proof {
            let w = width as int;
            let idx = pixel_index(x as int, y as int, w);
            lemma_blend_full(c, prev[idx], 1);
            assert forall|i: int| 0 <= i < old(buffer)@.len() implies buffer@[i] == (if i % w
                == x as int && ylo <= i / w < y + 1 {
                c.solid()
            } else {
                old(buffer)@[i]
            }) by {
                if i % w == x as int && i / w == y as int {
                    lemma_index_unique(x as int, y as int, w, i);
                }
            }
        }
        y = y + 1;
    }
}

#[verifier::loop_isolation(false)]
fn draw_horizontal(c: Color, y: i32, xlo: i32, xhi: i32, width: usize, buffer: &mut Vec<Color>)
    requires
        1 <= width <= 0x7fff_ffff,
        old(buffer)@.len() <= 0x7fff_ffff,
        xlo <= xhi,
        seg_in_frame(
            xlo as int,
            y as int,
            xhi as int,
            y as int,
            width as int,
            frame_height(old(buffer)@.len() as int, width as int),
        ),
    ensures
        final(buffer)@.len() == old(buffer)@.len(),
        forall|i: int|
            0 <= i < old(buffer)@.len() ==> final(buffer)@[i] == horizontal_at(
                old(buffer)@,
                c,
                y as int,
                xlo as int,
                xhi as int,
                width as int,
                i,
            ),
{
    let mut x = xlo;
    while x <= xhi
        invariant
            xlo <= x <= xhi + 1,
            buffer@.len() == old(buffer)@.len(),
            forall|i: int|
                0 <= i < old(buffer)@.len() ==> buffer@[i] == (if i / (width as int) == y as int
                    && xlo <= i % (width as int) < x {
                    c.solid()
                } else {
                    old(buffer)@[i]
                }),
        decreases xhi + 1 - x,
    {
        proof {
            lemma_pixel_index_in_bounds(
                x as int,
                y as int,
                width as int,
                old(buffer)@.len() as int,
            );
            lemma_pixel_index_inverts(x as int, y as int, width as int);
        }
        let ghost prev = buffer@;
        set_pixel(c, 1, 1, x, y, width, buffer);
        proof {
            let w = width as int;
            let idx = pixel_index(x as int, y as int, w);
            lemma_blend_full(c, prev[idx], 1);
            assert forall|i: int| 0 <= i < old(buffer)@.len() implies buffer@[i] == (if i / w
                == y as int && xlo <= i % w < x + 1 {
                c.solid()
            } else {
                old(buffer)@[i]
            }) by {
                if i / w == y as int && i % w == x as int {
                    lemma_index_unique(x as int, y as int, w, i);
                }
            }
        }
        x = x + 1;
    }
}

#[verifier::loop_isolation(false)]
fn draw_diagonal(c: Color, x0: i32, y0: i32, x1: i32, y1: i32, width: usize, buffer: &mut Vec<
    Color,
>)
    requires
        1 <= width <= 0x7fff_ffff,
        old(buffer)@.len() <= 0x7fff_ffff,
        x0 != x1,
        abs_of(x1 - x0) == abs_of(y1 - y0),
        seg_in_frame(
            x0 as int,
            y0 as int,
            x1 as int,
            y1 as int,
            width as int,
            frame_height(old(buffer)@.len() as int, width as int),
        ),
    ensures
        final(buffer)@.len() == old(buffer)@.len(),
        forall|i: int|
            0 <= i < old(buffer)@.len() ==> final(buffer)@[i] == diagonal_at(
                old(buffer)@,
                c,
                x0 as int,
                y0 as int,
                sign_of((x1 - x0) as int),
                sign_of((y1 - y0) as int),
                abs_of((x1 - x0) as int),
                width as int,
                i,
            ),
{
    let dx = x1 - x0;
    let dy = y1 - y0;
    let n = if dx < 0 {
        -dx
    } else {
        dx
    };
    let xdir: i32 = if dx < 0 {
        -1
    } else {
        1
    };
    let ydir: i32 = if dy < 0 {
        -1
    } else {
        1
    };
    let mut k: i32 = 0;
    while k <= n
        invariant
            0 <= k <= n + 1,
            buffer@.len() == old(buffer)@.len(),
            forall|i: int|
                0 <= i < old(buffer)@.len() ==> buffer@[i] == ({
                    let kk = (xdir as int) * (i % (width as int) - x0 as int);
                    if 0 <= kk < k && i / (width as int) == y0 + kk * (ydir as int) {
                        c.solid()
                    } else {
                        old(buffer)@[i]
                    }
                }),
        decreases n + 1 - k,
    {
        let x = x0 + k * xdir;
        let y = y0 + k * ydir;
        proof {
            assert((k * xdir) * xdir == k && (k * ydir) * ydir == k) by (nonlinear_arith)
                requires
                    xdir == 1 || xdir == -1,
                    ydir == 1 || ydir == -1,
            ;
            lemma_pixel_index_in_bounds(
                x as int,
                y as int,
                width as int,
                old(buffer)@.len() as int,
            );
            lemma_pixel_index_inverts(x as int, y as int, width as int);
        }
        let ghost prev = buffer@;
        set_pixel(c, 1, 1, x, y, width, buffer);
        proof {
            let w = width as int;
            let idx = pixel_index(x as int, y as int, w);
            lemma_blend_full(c, prev[idx], 1);
            assert forall|i: int| 0 <= i < old(buffer)@.len() implies buffer@[i] == ({
                let kk = (xdir as int) * (i % w - x0 as int);
                if 0 <= kk < k + 1 && i / w == y0 + kk * (ydir as int) {
                    c.solid()
                } else {
                    old(buffer)@[i]
                }
            }) by {
                let kk = (xdir as int) * (i % w - x0 as int);
                if 0 <= kk < k + 1 && i / w == y0 + kk * (ydir as int) && kk == k as int {
                    assert(x0 + kk * (xdir as int) == i % w) by (nonlinear_arith)
                        requires
                            xdir == 1 || xdir == -1,
                            kk == (xdir as int) * (i % w - x0 as int),
                    ;
                    lemma_index_unique(i % w, i / w, w, i);
                }
            }
        }
        k = k + 1;
    }
}

/// Multiplying by a unit direction negates or keeps the other factor.
proof fn lemma_unit_mul(d: int, a: int)
    requires
        d == 1 || d == -1,
    ensures
        d * a == (if d == 1 {
            a
        } else {
            -a
        }),
        a * d == d * a,
{
    assert(d * a == (if d == 1 {
        a
    } else {
        -a
    }) && a * d == d * a) by (nonlinear_arith)
        requires
            d == 1 || d == -1,
    ;
}

/// After `k` of `adx` steps the walk has drifted at most the whole minor
/// extent, and strictly less while steps remain.
proof fn lemma_drift_bound(k: int, adx: int, ady: int)
    requires
        0 <= k <= adx,
        1 <= ady < adx,
    ensures
        0 <= aa_drift(k, adx, ady) <= ady,
        k < adx ==> aa_drift(k, adx, ady) <= ady - 1,
{
    assert(0 <= k * ady) by (nonlinear_arith)
        requires
            0 <= k,
            0 <= ady,
    ;
    lemma_div_pos_is_pos(k * ady, adx);
    if k < adx {
        assert(k * ady <= adx * ady - ady) by (nonlinear_arith)
            requires
                k <= adx - 1,
                1 <= ady,
        ;
        lemma_div_is_ordered(k * ady, adx * ady - ady, adx);
        assert(adx * ady - ady == (ady - 1) * adx + (adx - ady)) by (nonlinear_arith);
        lemma_fundamental_div_mod_converse(adx * ady - ady, adx, ady - 1, adx - ady);
    } else {
        assert(k * ady == ady * adx) by (nonlinear_arith)
            requires
                k == adx,
        ;
        lemma_div_by_multiple(ady, adx);
    }
}

/// One step of the error-accumulation walk: adding the minor extent to the
/// error either stays below the major extent (no drift) or wraps once (one
/// unit of drift).
proof fn lemma_walk_step(k: int, adx: int, ady: int)
    requires
        0 <= k,
        1 <= ady < adx,
    ensures
        ({
            let e = aa_cov_adjacent(k, adx, ady);
            let rs = aa_drift(k, adx, ady);
            &&& (e + ady < adx ==> aa_cov_adjacent(k + 1, adx, ady) == e + ady && aa_drift(
                k + 1,
                adx,
                ady,
            ) == rs)
            &&& (e + ady >= adx ==> aa_cov_adjacent(k + 1, adx, ady) == e + ady - adx && aa_drift(
                k + 1,
                adx,
                ady,
            ) == rs + 1)
        }),
{
    let e = (k * ady) % adx;
    let q = (k * ady) / adx;
    lemma_fundamental_div_mod(k * ady, adx);
    lemma_mod_bound(k * ady, adx);
    assert((k + 1) * ady == k * ady + ady) by (nonlinear_arith);
    if e + ady < adx {
        assert(k * ady + ady == q * adx + (e + ady)) by (nonlinear_arith)
            requires
                k * ady == adx * q + e,
        ;
        lemma_fundamental_div_mod_converse(k * ady + ady, adx, q, e + ady);
    } else {
        assert(k * ady + ady == (q + 1) * adx + (e + ady - adx)) by (nonlinear_arith)
            requires
                k * ady == adx * q + e,
        ;
        lemma_fundamental_div_mod_converse(k * ady + ady, adx, q + 1, e + ady - adx);
    }
}

#[verifier::loop_isolation(false)]
#[verifier::rlimit(100)]
fn draw_xmajor(c: Color, x0: i32, y0: i32, x1: i32, y1: i32, width: usize, buffer: &mut Vec<
    Color,
>)
    requires
        1 <= width <= 0x7fff_ffff,
        old(buffer)@.len() <= 0x7fff_ffff,
        abs_of((x1 - x0) as int) > abs_of((y1 - y0) as int),
        abs_of((y1 - y0) as int) >= 1,
        seg_in_frame(
            x0 as int,
            y0 as int,
            x1 as int,
            y1 as int,
            width as int,
            frame_height(old(buffer)@.len() as int, width as int),
        ),
    ensures
        final(buffer)@.len() == old(buffer)@.len(),
        forall|i: int|
            0 <= i < old(buffer)@.len() ==> final(buffer)@[i] == xmajor_at(
                old(buffer)@,
                c,
                x0 as int,
                y0 as int,
                sign_of((x1 - x0) as int),
                sign_of((y1 - y0) as int),
                abs_of((x1 - x0) as int),
                abs_of((y1 - y0) as int),
                width as int,
                i,
            ),
{
    let ghost w = width as int;
    let ghost h = frame_height(old(buffer)@.len() as int, w);
    let dx = x1 - x0;
    let dy = y1 - y0;
    let adx = if dx < 0 {
        -dx
    } else {
        dx
    };
    let ady = if dy < 0 {
        -dy
    } else {
        dy
    };
    let xdir: i32 = if dx < 0 {
        -1
    } else {
        1
    };
    let ydir: i32 = if dy < 0 {
        -1
    } else {
        1
    };
    let mut x = x0;
    let mut y = y0;
    let mut err: i64 = 0;
    let ghost mut k: int = 0;
    proof {
        lemma_fundamental_div_mod_converse(0, adx as int, 0, 0);
        assert(0 * (ady as int) == 0) by (nonlinear_arith);
    }
    while x != x1
        invariant
            0 <= k <= adx as int,
            x as int == x0 + k * (xdir as int),
            (xdir == 1 ==> x0 <= x <= x1) && (xdir == -1 ==> x1 <= x <= x0),
            err as int == aa_cov_adjacent(k, adx as int, ady as int),
            0 <= err < adx as int,
            y as int == y0 + (ydir as int) * aa_drift(k, adx as int, ady as int),
            (ydir == 1 ==> y0 <= y <= y1) && (ydir == -1 ==> y1 <= y <= y0),
            buffer@.len() == old(buffer)@.len(),
            forall|i: int|
                0 <= i < old(buffer)@.len() ==> buffer@[i] == ({
                    let kk = (xdir as int) * (i % w - x0 as int);
                    let yy = i / w;
                    if 0 <= kk < k && yy == y0 + (ydir as int) * (aa_drift(
                        kk,
                        adx as int,
                        ady as int,
                    ) + 1) {
                        blend_color(
                            c,
                            old(buffer)@[i],
                            aa_cov_adjacent(kk, adx as int, ady as int),
                            adx as int,
                        )
                    } else if 0 <= kk < k && yy == y0 + (ydir as int) * aa_drift(
                        kk,
                        adx as int,
                        ady as int,
                    ) {
                        blend_color(
                            c,
                            old(buffer)@[i],
                            aa_cov_current(kk, adx as int, ady as int),
                            adx as int,
                        )
                    } else {
                        old(buffer)@[i]
                    }
                }),
        decreases adx as int - k,
    {
        let ghost rs = aa_drift(k, adx as int, ady as int);
        proof {
            assert(adx * (xdir as int) == dx && ady * (ydir as int) == dy) by (nonlinear_arith)
                requires
                    (dx < 0 ==> adx == -dx && xdir == -1) && (dx >= 0 ==> adx == dx && xdir == 1)
                        && (dy < 0 ==> ady == -dy && ydir == -1) && (dy >= 0 ==> ady == dy && ydir
                        == 1),
            ;
            lemma_unit_mul(xdir as int, k);
            lemma_unit_mul(xdir as int, adx as int);
            if k == adx as int {
                assert(false);
            }
            lemma_drift_bound(k, adx as int, ady as int);
            lemma_unit_mul(ydir as int, rs);
            lemma_unit_mul(ydir as int, rs + 1);
            lemma_unit_mul(ydir as int, ady as int);
            assert(0 <= (y as int) + (ydir as int) && (y as int) + (ydir as int) < h);
            lemma_pixel_index_in_bounds(x as int, (y as int) + (ydir as int), w, old(buffer)@.len() as int);
            lemma_pixel_index_in_bounds(x as int, y as int, w, old(buffer)@.len() as int);
            lemma_pixel_index_inverts(x as int, (y as int) + (ydir as int), w);
            lemma_pixel_index_inverts(x as int, y as int, w);
        }
        let ghost e = err as int;
        let ghost idx_adj = pixel_index(x as int, (y as int) + (ydir as int), w);
        let ghost idx_cur = pixel_index(x as int, y as int, w);
        let ghost prev = buffer@;
        set_pixel(c, err as u32, adx as u32, x, y + ydir, width, buffer);
        let ghost mid = buffer@;
        let cur_num = (adx as i64 - err) as u32;
        set_pixel(c, cur_num, adx as u32, x, y, width, buffer);
        proof {
            assert(((y as int) + (ydir as int)) * w == (y as int) * w + (ydir as int) * w)
                by (nonlinear_arith);
            lemma_unit_mul(ydir as int, w);
            assert(idx_adj != idx_cur);
            assert forall|i: int| 0 <= i < old(buffer)@.len() implies buffer@[i] == ({
                let kk = (xdir as int) * (i % w - x0 as int);
                let yy = i / w;
                if 0 <= kk < k + 1 && yy == y0 + (ydir as int) * (aa_drift(
                    kk,
                    adx as int,
                    ady as int,
                ) + 1) {
                    blend_color(
                        c,
                        old(buffer)@[i],
                        aa_cov_adjacent(kk, adx as int, ady as int),
                        adx as int,
                    )
                } else if 0 <= kk < k + 1 && yy == y0 + (ydir as int) * aa_drift(
                    kk,
                    adx as int,
                    ady as int,
                ) {
                    blend_color(
                        c,
                        old(buffer)@[i],
                        aa_cov_current(kk, adx as int, ady as int),
                        adx as int,
                    )
                } else {
                    old(buffer)@[i]
                }
            }) by {
                let kk = (xdir as int) * (i % w - x0 as int);
                let yy = i / w;
                lemma_unit_mul(xdir as int, i % w - x0 as int);
                lemma_unit_mul(xdir as int, k);
                lemma_unit_mul(ydir as int, rs);
                lemma_unit_mul(ydir as int, rs + 1);
                if i == idx_adj {
                    assert(kk == k);
                    assert(yy == y0 + (ydir as int) * (rs + 1));
                } else if i == idx_cur {
                    assert(kk == k);
                    assert(yy == y0 + (ydir as int) * rs);
                } else {
                    if kk == k {
                        assert(i % w == x as int);
                        if yy == y0 + (ydir as int) * (rs + 1) {
                            lemma_index_unique(i % w, yy, w, i);
                            assert(false);
                        } else if yy == y0 + (ydir as int) * rs {
                            lemma_index_unique(i % w, yy, w, i);
                            assert(false);
                        }
                    }
                }
            }
        }
        err = err + ady as i64;
        if err >= adx as i64 {
            y = y + ydir;
            err = err - adx as i64;
        }
        x = x + xdir;
        proof {
            lemma_walk_step(k, adx as int, ady as int);
            k = k + 1;
            lemma_drift_bound(k, adx as int, ady as int);
            lemma_unit_mul(xdir as int, k);
            lemma_unit_mul(ydir as int, aa_drift(k, adx as int, ady as int));
            lemma_unit_mul(ydir as int, ady as int);
            lemma_unit_mul(xdir as int, adx as int);
        }
    }
    proof {
        lemma_unit_mul(xdir as int, k);
        lemma_unit_mul(xdir as int, adx as int);
        assert(adx * (xdir as int) == dx) by (nonlinear_arith)
            requires
                (dx < 0 ==> adx == -dx && xdir == -1) && (dx >= 0 ==> adx == dx && xdir == 1),
        ;
        assert(k == adx as int);
    }
}

#[verifier::loop_isolation(false)]
#[verifier::rlimit(100)]
fn draw_ymajor(c: Color, x0: i32, y0: i32, x1: i32, y1: i32, width: usize, buffer: &mut Vec<
    Color,
>)
    requires
        1 <= width <= 0x7fff_ffff,
        old(buffer)@.len() <= 0x7fff_ffff,
        abs_of((y1 - y0) as int) > abs_of((x1 - x0) as int),
        abs_of((x1 - x0) as int) >= 1,
        seg_in_frame(
            x0 as int,
            y0 as int,
            x1 as int,
            y1 as int,
            width as int,
            frame_height(old(buffer)@.len() as int, width as int),
        ),
    ensures
        final(buffer)@.len() == old(buffer)@.len(),
        forall|i: int|
            0 <= i < old(buffer)@.len() ==> final(buffer)@[i] == ymajor_at(
                old(buffer)@,
                c,
                x0 as int,
                y0 as int,
                sign_of((x1 - x0) as int),
                sign_of((y1 - y0) as int),
                abs_of((x1 - x0) as int),
                abs_of((y1 - y0) as int),
                width as int,
                i,
            ),
{
    let ghost w = width as int;
    let ghost h = frame_height(old(buffer)@.len() as int, w);
    let dx = x1 - x0;
    let dy = y1 - y0;
    let adx = if dx < 0 {
        -dx
    } else {
        dx
    };
    let ady = if dy < 0 {
        -dy
    } else {
        dy
    };
    let xdir: i32 = if dx < 0 {
        -1
    } else {
        1
    };
    let ydir: i32 = if dy < 0 {
        -1
    } else {
        1
    };
    let mut x = x0;
    let mut y = y0;
    let mut err: i64 = 0;
    let ghost mut k: int = 0;
    proof {
        lemma_fundamental_div_mod_converse(0, ady as int, 0, 0);
        assert(0 * (adx as int) == 0) by (nonlinear_arith);
    }
    while y != y1
        invariant
            0 <= k <= ady as int,
            y as int == y0 + k * (ydir as int),
            (ydir == 1 ==> y0 <= y <= y1) && (ydir == -1 ==> y1 <= y <= y0),
            err as int == aa_cov_adjacent(k, ady as int, adx as int),
            0 <= err < ady as int,
            x as int == x0 + (xdir as int) * aa_drift(k, ady as int, adx as int),
            (xdir == 1 ==> x0 <= x <= x1) && (xdir == -1 ==> x1 <= x <= x0),
            buffer@.len() == old(buffer)@.len(),
            forall|i: int|
                0 <= i < old(buffer)@.len() ==> buffer@[i] == ({
                    let kk = (ydir as int) * (i / w - y0 as int);
                    let xx = i % w;
                    if 0 <= kk < k && xx == x0 + (xdir as int) * (aa_drift(
                        kk,
                        ady as int,
                        adx as int,
                    ) + 1) {
                        blend_color(
                            c,
                            old(buffer)@[i],
                            aa_cov_adjacent(kk, ady as int, adx as int),
                            ady as int,
                        )
                    } else if 0 <= kk < k && xx == x0 + (xdir as int) * aa_drift(
                        kk,
                        ady as int,
                        adx as int,
                    ) {
                        blend_color(
                            c,
                            old(buffer)@[i],
                            aa_cov_current(kk, ady as int, adx as int),
                            ady as int,
                        )
                    } else {
                        old(buffer)@[i]
                    }
                }),
        decreases ady as int - k,
    {
        let ghost rs = aa_drift(k, ady as int, adx as int);
        proof {
            assert(adx * (xdir as int) == dx && ady * (ydir as int) == dy) by (nonlinear_arith)
                requires
                    (dx < 0 ==> adx == -dx && xdir == -1) && (dx >= 0 ==> adx == dx && xdir == 1)
                        && (dy < 0 ==> ady == -dy && ydir == -1) && (dy >= 0 ==> ady == dy && ydir
                        == 1),
            ;
            lemma_unit_mul(ydir as int, k);
            lemma_unit_mul(ydir as int, ady as int);
            if k == ady as int {
                assert(false);
            }
            lemma_drift_bound(k, ady as int, adx as int);
            lemma_unit_mul(xdir as int, rs);
            lemma_unit_mul(xdir as int, rs + 1);
            lemma_unit_mul(xdir as int, adx as int);
            assert(0 <= (x as int) + (xdir as int) && (x as int) + (xdir as int) < w);
            lemma_pixel_index_in_bounds(
                (x as int) + (xdir as int),
                y as int,
                w,
                old(buffer)@.len() as int,
            );
            lemma_pixel_index_in_bounds(x as int, y as int, w, old(buffer)@.len() as int);
            lemma_pixel_index_inverts((x as int) + (xdir as int), y as int, w);
            lemma_pixel_index_inverts(x as int, y as int, w);
        }
        let ghost e = err as int;
        let ghost idx_adj = pixel_index((x as int) + (xdir as int), y as int, w);
        let ghost idx_cur = pixel_index(x as int, y as int, w);
        let ghost prev = buffer@;
        set_pixel(c, err as u32, ady as u32, x + xdir, y, width, buffer);
        let ghost mid = buffer@;
        let cur_num = (ady as i64 - err) as u32;
        set_pixel(c, cur_num, ady as u32, x, y, width, buffer);
        proof {
            assert(idx_adj != idx_cur);
            assert forall|i: int| 0 <= i < old(buffer)@.len() implies buffer@[i] == ({
                let kk = (ydir as int) * (i / w - y0 as int);
                let xx = i % w;
                if 0 <= kk < k + 1 && xx == x0 + (xdir as int) * (aa_drift(
                    kk,
                    ady as int,
                    adx as int,
                ) + 1) {
                    blend_color(
                        c,
                        old(buffer)@[i],
                        aa_cov_adjacent(kk, ady as int, adx as int),
                        ady as int,
                    )
                } else if 0 <= kk < k + 1 && xx == x0 + (xdir as int) * aa_drift(
                    kk,
                    ady as int,
                    adx as int,
                ) {
                    blend_color(
                        c,
                        old(buffer)@[i],
                        aa_cov_current(kk, ady as int, adx as int),
                        ady as int,
                    )
                } else {
                    old(buffer)@[i]
                }
            }) by {
                let kk = (ydir as int) * (i / w - y0 as int);
                let xx = i % w;
                lemma_unit_mul(ydir as int, i / w - y0 as int);
                lemma_unit_mul(ydir as int, k);
                lemma_unit_mul(xdir as int, rs);
                lemma_unit_mul(xdir as int, rs + 1);
                if i == idx_adj {
                    assert(kk == k);
                    assert(xx == x0 + (xdir as int) * (rs + 1));
                } else if i == idx_cur {
                    assert(kk == k);
                    assert(xx == x0 + (xdir as int) * rs);
                } else {
                    if kk == k {
                        assert(i / w == y as int);
                        if xx == x0 + (xdir as int) * (rs + 1) {
                            lemma_index_unique(xx, i / w, w, i);
                            assert(false);
                        } else if xx == x0 + (xdir as int) * rs {
                            lemma_index_unique(xx, i / w, w, i);
                            assert(false);
                        }
                    }
                }
            }
        }
        err = err + adx as i64;
        if err >= ady as i64 {
            x = x + xdir;
            err = err - ady as i64;
        }
        y = y + ydir;
        proof {
            lemma_walk_step(k, ady as int, adx as int);
            k = k + 1;
            lemma_drift_bound(k, ady as int, adx as int);
            lemma_unit_mul(ydir as int, k);
            lemma_unit_mul(xdir as int, aa_drift(k, ady as int, adx as int));
            lemma_unit_mul(xdir as int, adx as int);
            lemma_unit_mul(ydir as int, ady as int);
        }
    }
    proof {
        lemma_unit_mul(ydir as int, k);
        lemma_unit_mul(ydir as int, ady as int);
        assert(ady * (ydir as int) == dy) by (nonlinear_arith)
            requires
                (dy < 0 ==> ady == -dy && ydir == -1) && (dy >= 0 ==> ady == dy && ydir == 1),
        ;
        assert(k == ady as int);
    }
}

/// Draws the anti-aliased segment `p0 .. p1` in `color` onto the
/// framebuffer, whose rows are `width` wide. The segment is first clipped to
/// the frame, and nothing is painted when it lies wholly outside; a
/// vertical, horizontal or exact forty-five-degree part is painted at full
/// coverage pixel by pixel; any other part is walked one pixel per step
/// along its major axis, each step distributing one pixel's worth of
/// coverage over the two nearest pixels; and the final endpoint is painted
/// at full coverage as the terminating step. The resulting framebuffer is
/// exactly `draw_line_spec`.
#[verifier::rlimit(100)]
pub fn wu_line(color: Color, p0: (i32, i32), p1: (i32, i32), width: usize, buffer: &mut Vec<
    Color,
>)
    requires
        1 <= width <= 0x7fff_ffff,
        width <= old(buffer)@.len() <= 0x7fff_ffff,
    ensures
        final(buffer)@ == draw_line_spec(
            old(buffer)@,
            color,
            (p0.0 as int, p0.1 as int),
            (p1.0 as int, p1.1 as int),
            width as int,
        ),
{
    let n = buffer.len();
    let height = n / width;
    proof {
        lemma_div_is_ordered(width as int, n as int, width as int);
        lemma_div_by_multiple(1, width as int);
        lemma_fundamental_div_mod(n as int, width as int);
        lemma_mod_bound(n as int, width as int);
        assert(frame_height(n as int, width as int) <= frame_height(n as int, width as int) * (
        width as int)) by (nonlinear_arith)
            requires
                1 <= width,
                0 <= frame_height(n as int, width as int),
        ;
    }
    let clipped = line_segment_in_rect(p0, p1, width, height);
    match clipped {
        None => {},
        Some(((cx0, cy0), (cx1, cy1))) => {
            let dx = cx1 - cx0;
            let dy = cy1 - cy0;
            let adx = if dx < 0 {
                -dx
            } else {
                dx
            };
            let ady = if dy < 0 {
                -dy
            } else {
                dy
            };
            if dx == 0 {
                let ylo = if cy0 < cy1 {
                    cy0
                } else {
                    cy1
                };
                let yhi = if cy0 < cy1 {
                    cy1
                } else {
                    cy0
                };
                draw_vertical(color, cx0, ylo, yhi, width, buffer);
            } else if dy == 0 {
                let xlo = if cx0 < cx1 {
                    cx0
                } else {
                    cx1
                };
                let xhi = if cx0 < cx1 {
                    cx1
                } else {
                    cx0
                };
                draw_horizontal(color, cy0, xlo, xhi, width, buffer);
            } else if adx == ady {
                draw_diagonal(color, cx0, cy0, cx1, cy1, width, buffer);
            } else if adx > ady {
                draw_xmajor(color, cx0, cy0, cx1, cy1, width, buffer);
                proof {
                    lemma_pixel_index_in_bounds(
                        cx1 as int,
                        cy1 as int,
                        width as int,
                        old(buffer)@.len() as int,
                    );
                }
                let ghost midb = buffer@;
                set_pixel(color, 1, 1, cx1, cy1, width, buffer);
                proof {
                    lemma_blend_full(
                        color,
                        midb[pixel_index(cx1 as int, cy1 as int, width as int)],
                        1,
                    );
                }
            } else {
                draw_ymajor(color, cx0, cy0, cx1, cy1, width, buffer);
                proof {
                    lemma_pixel_index_in_bounds(
                        cx1 as int,
                        cy1 as int,
                        width as int,
                        old(buffer)@.len() as int,
                    );
                }
                let ghost midb = buffer@;
                set_pixel(color, 1, 1, cx1, cy1, width, buffer);
                proof {
                    lemma_blend_full(
                        color,
                        midb[pixel_index(cx1 as int, cy1 as int, width as int)],
                        1,
                    );
                }
            }
            proof {
                assert(buffer@ =~= Seq::new(
                    old(buffer)@.len(),
                    |i: int|
                        draw_clipped_at(
                            old(buffer)@,
                            color,
                            cx0 as int,
                            cy0 as int,
                            cx1 as int,
                            cy1 as int,
                            width as int,
                            i,
                        ),
                ));
            }
        },
    }
}

} // verus!
