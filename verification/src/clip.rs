use vstd::prelude::*;
use vstd::arithmetic::div_mod::{
    lemma_div_is_ordered, lemma_div_multiples_vanish, lemma_div_pos_is_pos,
};

verus! {

/// Whether `value` lies in the closed interval `[low, high]`.
pub open spec fn within(value: int, low: int, high: int) -> bool {
    low <= value && value <= high
}

/// `value` forced into `[low, high]`, `low` winning when the interval is
/// empty.
pub open spec fn clamped(value: int, low: int, high: int) -> int {
    if value < low {
        low
    } else if value > high {
        high
    } else {
        value
    }
}

pub fn clamp(value: i32, low: i32, high: i32) -> (r: i32)
    ensures
        r as int == clamped(value as int, low as int, high as int),
{
    if value < low {
        low
    } else if value > high {
        high
    } else {
        value
    }
}

pub fn in_range(value: i32, low: i32, high: i32) -> (r: bool)
    ensures
        r == within(value as int, low as int, high as int),
{
    low <= value && value <= high
}

/// `n / d` for `d > 0`, rounded to the nearest integer, ties away from zero.
pub open spec fn round_to_nearest(n: int, d: int) -> int
    recommends
        0 < d,
{
    if n >= 0 {
        (2 * n + d) / (2 * d)
    } else {
        -((2 * (-n) + d) / (2 * d))
    }
}

/// The rational `n / d` (any nonzero `d`) rounded to the nearest integer,
/// ties away from zero.
pub open spec fn round_rat(n: int, d: int) -> int
    recommends
        d != 0,
{
    if d > 0 {
        round_to_nearest(n, d)
    } else {
        round_to_nearest(-n, -d)
    }
}

/// Bound within which the wide intermediate intersection arithmetic stays.
const WIDE_BOUND: i128 = 0x40_0000_0000_0000_0000;

fn round_div(n: i128, d: i128) -> (r: i128)
    requires
        0 < d <= WIDE_BOUND,
        -WIDE_BOUND <= n <= WIDE_BOUND,
    ensures
        r as int == round_to_nearest(n as int, d as int),
        -WIDE_BOUND - 1 <= r <= WIDE_BOUND + 1,
{
    if n >= 0 {
        let nu = n as u128;
        let du = d as u128;
        let q = (2 * nu + du) / (2 * du);
        proof {
            lemma_round_quotient_bound(n as int, d as int);
        }
        q as i128
    } else {
        let nu = (-n) as u128;
        let du = d as u128;
        let q = (2 * nu + du) / (2 * du);
        proof {
            lemma_round_quotient_bound(-(n as int), d as int);
        }
        -(q as i128)
    }
}

proof fn lemma_round_quotient_bound(n: int, d: int)
    requires
        0 <= n,
        0 < d,
    ensures
        0 <= (2 * n + d) / (2 * d) <= n + 1,
{
    assert(2 * n + d <= (2 * d) * (n + 1)) by (nonlinear_arith)
        requires
            0 <= n,
            0 < d,
    ;
    lemma_div_pos_is_pos(2 * n + d, 2 * d);
    lemma_div_is_ordered(2 * n + d, (2 * d) * (n + 1), 2 * d);
    lemma_div_multiples_vanish(n + 1, 2 * d);
}

/// Whether a candidate point lies in the closed box.
pub open spec fn in_box(p: (int, int), min_x: int, max_x: int, min_y: int, max_y: int) -> bool {
    within(p.0, min_x, max_x) && within(p.1, min_y, max_y)
}

/// Keeps whichever of `cur` and `cand` has the smaller x, ignoring a
/// candidate outside the box; on an equal x the earlier point stays.
pub open spec fn pick_smaller_x(
    cur: Option<(int, int)>,
    cand: (int, int),
    min_x: int,
    max_x: int,
    min_y: int,
    max_y: int,
) -> Option<(int, int)> {
    if !in_box(cand, min_x, max_x, min_y, max_y) {
        cur
    } else {
        match cur {
            None => Some(cand),
            Some(prev) => if cand.0 < prev.0 {
                Some(cand)
            } else {
                cur
            },
        }
    }
}

/// Keeps whichever of `cur` and `cand` has the larger x, ignoring a
/// candidate outside the box; on an equal x the earlier point stays.
pub open spec fn pick_larger_x(
    cur: Option<(int, int)>,
    cand: (int, int),
    min_x: int,
    max_x: int,
    min_y: int,
    max_y: int,
) -> Option<(int, int)> {
    if !in_box(cand, min_x, max_x, min_y, max_y) {
        cur
    } else {
        match cur {
            None => Some(cand),
            Some(prev) => if cand.0 > prev.0 {
                Some(cand)
            } else {
                cur
            },
        }
    }
}

/// The general (not axis-aligned) clipping step, for endpoints already
/// ordered by x. The two endpoints and the four rounded intersections of the
/// carrier line with the rectangle's edges are the candidates; a candidate
/// survives only inside both the rectangle and the segment's bounding box,
/// and the surviving points of smallest and largest x become the clipped
/// segment. On an equal x the earlier candidate wins, in the fixed order:
/// first endpoint, second endpoint, top, bottom, left, right.
pub open spec fn clip_general(x0: int, y0: int, x1: int, y1: int, w: int, h: int) -> Option<
    ((int, int), (int, int)),
>
    recommends
        x0 < x1,
        y0 != y1,
{
    let dx = x1 - x0;
    let dy = y1 - y0;
    let bnum = y0 * dx - dy * x0;
    let p0 = (x0, y0);
    let p1 = (x1, y1);
    let top = (round_rat(-bnum, dy), 0);
    let bottom = (round_rat((h - 1) * dx - bnum, dy), h - 1);
    let left = (0, round_rat(bnum, dx));
    let right = (w - 1, round_rat(dy * (w - 1) + bnum, dx));
    let min_x = if x0 > 0 {
        x0
    } else {
        0
    };
    let max_x = if x1 < w - 1 {
        x1
    } else {
        w - 1
    };
    let ylo = if y0 < y1 {
        y0
    } else {
        y1
    };
    let yhi = if y0 < y1 {
        y1
    } else {
        y0
    };
    let min_y = if ylo > 0 {
        ylo
    } else {
        0
    };
    let max_y = if yhi < h - 1 {
        yhi
    } else {
        h - 1
    };
    let s = pick_smaller_x(
        pick_smaller_x(
            pick_smaller_x(
                pick_smaller_x(
                    pick_smaller_x(
                        pick_smaller_x(None, p0, min_x, max_x, min_y, max_y),
                        p1,
                        min_x,
                        max_x,
                        min_y,
                        max_y,
                    ),
                    top,
                    min_x,
                    max_x,
                    min_y,
                    max_y,
                ),
                bottom,
                min_x,
                max_x,
                min_y,
                max_y,
            ),
            left,
            min_x,
            max_x,
            min_y,
            max_y,
        ),
        right,
        min_x,
        max_x,
        min_y,
        max_y,
    );
    let l = pick_larger_x(
        pick_larger_x(
            pick_larger_x(
                pick_larger_x(
                    pick_larger_x(
                        pick_larger_x(None, p0, min_x, max_x, min_y, max_y),
                        p1,
                        min_x,
                        max_x,
                        min_y,
                        max_y,
                    ),
                    top,
                    min_x,
                    max_x,
                    min_y,
                    max_y,
                ),
                bottom,
                min_x,
                max_x,
                min_y,
                max_y,
            ),
            left,
            min_x,
            max_x,
            min_y,
            max_y,
        ),
        right,
        min_x,
        max_x,
        min_y,
        max_y,
    );
    match (s, l) {
        (Some(a), Some(b)) => Some((a, b)),
        _ => None,
    }
}

/// The sub-segment of `p0 .. p1` inside the `w` by `h` pixel rectangle, or
/// nothing when the segment lies wholly outside. Endpoints already inside
/// come back unchanged; an axis-aligned segment has its varying coordinate
/// clamped and is rejected when its fixed coordinate is out of range; any
/// other segment goes through the candidate selection of `clip_general`.
pub open spec fn clip_spec(p0: (int, int), p1: (int, int), w: int, h: int) -> Option<
    ((int, int), (int, int)),
> {
    let x0 = p0.0;
    let y0 = p0.1;
    let x1 = p1.0;
    let y1 = p1.1;
    if within(x0, 0, w - 1) && within(x1, 0, w - 1) && within(y0, 0, h - 1) && within(
        y1,
        0,
        h - 1,
    ) {
        Some((p0, p1))
    } else if x0 == x1 {
        if within(x0, 0, w - 1) {
            Some(((x0, clamped(y0, 0, h - 1)), (x1, clamped(y1, 0, h - 1))))
        } else {
            None
        }
    } else if y0 == y1 {
        if within(y0, 0, h - 1) {
            Some(((clamped(x0, 0, w - 1), y0), (clamped(x1, 0, w - 1), y1)))
        } else {
            None
        }
    } else if x0 < x1 {
        clip_general(x0, y0, x1, y1, w, h)
    } else {
        clip_general(x1, y1, x0, y0, w, h)
    }
}

/// The view of a wide-arithmetic candidate slot as a mathematical point.
pub open spec fn wide_pt_view(o: Option<(i128, i128)>) -> Option<(int, int)> {
    match o {
        None => None,
        Some(p) => Some((p.0 as int, p.1 as int)),
    }
}

fn replace_if_x_smaller_in_range(
    value: &mut Option<(i128, i128)>,
    new_pt: (i128, i128),
    min_x: i128,
    max_x: i128,
    min_y: i128,
    max_y: i128,
)
    ensures
        wide_pt_view(*final(value)) == pick_smaller_x(
            wide_pt_view(*old(value)),
            (new_pt.0 as int, new_pt.1 as int),
            min_x as int,
            max_x as int,
            min_y as int,
            max_y as int,
        ),
{
    if !(min_x <= new_pt.0 && new_pt.0 <= max_x) || !(min_y <= new_pt.1 && new_pt.1 <= max_y) {
        return ;
    }
    let cur = *value;
    match cur {
        None => {
            *value = Some(new_pt);
        },
        Some(prev) => {
            if new_pt.0 < prev.0 {
                *value = Some(new_pt);
            }
        },
    }
}

fn replace_if_x_larger_in_range(
    value: &mut Option<(i128, i128)>,
    new_pt: (i128, i128),
    min_x: i128,
    max_x: i128,
    min_y: i128,
    max_y: i128,
)
    ensures
        wide_pt_view(*final(value)) == pick_larger_x(
            wide_pt_view(*old(value)),
            (new_pt.0 as int, new_pt.1 as int),
            min_x as int,
            max_x as int,
            min_y as int,
            max_y as int,
        ),
{
    if !(min_x <= new_pt.0 && new_pt.0 <= max_x) || !(min_y <= new_pt.1 && new_pt.1 <= max_y) {
        return ;
    }
    let cur = *value;
    match cur {
        None => {
            *value = Some(new_pt);
        },
        Some(prev) => {
            if new_pt.0 > prev.0 {
                *value = Some(new_pt);
            }
        },
    }
}

/// The clipper: returns the sub-segment of `p0 .. p1` that lies inside the
/// `width` by `height` framebuffer rectangle, or nothing when the segment is
/// wholly outside. The result is exactly `clip_spec`; in addition, both
/// returned endpoints always lie inside the rectangle, endpoints already
/// inside come back unchanged, and a segment strictly beyond one edge (with
/// the one axis-aligned clamping exception each way) is rejected.
/// An empty candidate box rejects every candidate, so the general clipping
/// step yields nothing.
proof fn lemma_clip_general_empty(x0: int, y0: int, x1: int, y1: int, w: int, h: int)
    requires
        x1 < 0 || x0 > w - 1 || (y0 < 0 && y1 < 0) || (y0 > h - 1 && y1 > h - 1),
    ensures
        clip_general(x0, y0, x1, y1, w, h) is None,
{
}

#[verifier::rlimit(100)]
fn clip_general_exec(x0: i32, y0: i32, x1: i32, y1: i32, w: i32, h: i32) -> (r: Option<
    ((i32, i32), (i32, i32)),
>)
    requires
        1 <= w,
        1 <= h,
        x0 < x1,
        y0 != y1,
    ensures
        ({
            let s = clip_general(x0 as int, y0 as int, x1 as int, y1 as int, w as int, h as int);
            match r {
                None => s is None,
                Some((a, b)) => s == Some::<((int, int), (int, int))>(
                    ((a.0 as int, a.1 as int), (b.0 as int, b.1 as int)),
                ),
            }
        }),
        r matches Some((a, b)) ==> 0 <= a.0 < w && 0 <= a.1 < h && 0 <= b.0 < w && 0 <= b.1 < h,
{
    let xw0 = x0 as i128;
    let yw0 = y0 as i128;
    let xw1 = x1 as i128;
    let yw1 = y1 as i128;
    let dx = xw1 - xw0;
    let dy = yw1 - yw0;
    proof {
        lemma_mul_abs_bound(yw0 as int, 0x8000_0000, dx as int, 0x1_0000_0000);
        lemma_mul_abs_bound(dy as int, 0x1_0000_0000, xw0 as int, 0x8000_0000);
    }
    let bnum = yw0 * dx - dy * xw0;
    let wm1 = (w - 1) as i128;
    let hm1 = (h - 1) as i128;

    // Intersections of the carrier line y = (dy/dx)x + b with the four edge
    // lines, each rounded to the nearest pixel.
    let left = (0i128, round_div(bnum, dx));
    proof {
        lemma_mul_abs_bound(dy as int, 0x1_0000_0000, wm1 as int, 0x8000_0000);
    }
    let right = (wm1, round_div(dy * wm1 + bnum, dx));
    let top = if dy > 0 {
        (round_div(-bnum, dy), 0i128)
    } else {
        (round_div(bnum, -dy), 0i128)
    };
    proof {
        lemma_mul_abs_bound(hm1 as int, 0x8000_0000, dx as int, 0x1_0000_0000);
    }
    let bottom = if dy > 0 {
        (round_div(hm1 * dx - bnum, dy), hm1)
    } else {
        (round_div(bnum - hm1 * dx, -dy), hm1)
    };
    let p0w = (xw0, yw0);
    let p1w = (xw1, yw1);

    // Candidates survive only inside both the rectangle and the segment's
    // own bounding box. The first endpoint has the smaller x, so its x
    // bounds the box below and the second endpoint's x bounds it above.
    let min_x: i128 = if xw0 > 0 {
        xw0
    } else {
        0
    };
    let max_x: i128 = if xw1 < wm1 {
        xw1
    } else {
        wm1
    };
    let ylo: i128 = if yw0 < yw1 {
        yw0
    } else {
        yw1
    };
    let yhi: i128 = if yw0 < yw1 {
        yw1
    } else {
        yw0
    };
    let min_y: i128 = if ylo > 0 {
        ylo
    } else {
        0
    };
    let max_y: i128 = if yhi < hm1 {
        yhi
    } else {
        hm1
    };

    let mut new_p0: Option<(i128, i128)> = None;
    let mut new_p1: Option<(i128, i128)> = None;

    // The survivor of smallest x becomes the new first endpoint and the
    // survivor of largest x the new second one, ties kept first-found.
    replace_if_x_smaller_in_range(&mut new_p0, p0w, min_x, max_x, min_y, max_y);
    replace_if_x_larger_in_range(&mut new_p1, p0w, min_x, max_x, min_y, max_y);

    replace_if_x_smaller_in_range(&mut new_p0, p1w, min_x, max_x, min_y, max_y);
    replace_if_x_larger_in_range(&mut new_p1, p1w, min_x, max_x, min_y, max_y);

    replace_if_x_smaller_in_range(&mut new_p0, top, min_x, max_x, min_y, max_y);
    replace_if_x_larger_in_range(&mut new_p1, top, min_x, max_x, min_y, max_y);

    replace_if_x_smaller_in_range(&mut new_p0, bottom, min_x, max_x, min_y, max_y);
    replace_if_x_larger_in_range(&mut new_p1, bottom, min_x, max_x, min_y, max_y);

    replace_if_x_smaller_in_range(&mut new_p0, left, min_x, max_x, min_y, max_y);
    replace_if_x_larger_in_range(&mut new_p1, left, min_x, max_x, min_y, max_y);

    replace_if_x_smaller_in_range(&mut new_p0, right, min_x, max_x, min_y, max_y);
    replace_if_x_larger_in_range(&mut new_p1, right, min_x, max_x, min_y, max_y);

    match (new_p0, new_p1) {
        (Some(a), Some(b)) => Some(((a.0 as i32, a.1 as i32), (b.0 as i32, b.1 as i32))),
        _ => None,
    }
}

/// The clipper: returns the sub-segment of `p0 .. p1` that lies inside the
/// `width` by `height` framebuffer rectangle, or nothing when the segment is
/// wholly outside. The result is exactly `clip_spec`; in addition, both
/// returned endpoints always lie inside the rectangle, endpoints already
/// inside come back unchanged, and a segment strictly beyond one edge is
/// rejected (with one exception each way: an axis-aligned segment whose
/// fixed coordinate is in range is clamped onto the edge instead).
pub fn line_segment_in_rect(
    p0: (i32, i32),
    p1: (i32, i32),
    width: usize,
    height: usize,
) -> (r: Option<((i32, i32), (i32, i32))>)
    requires
        1 <= width <= i32::MAX,
        1 <= height <= i32::MAX,
    ensures
        ({
            let s = clip_spec(
                (p0.0 as int, p0.1 as int),
                (p1.0 as int, p1.1 as int),
                width as int,
                height as int,
            );
            match r {
                None => s is None,
                Some((a, b)) => s == Some::<((int, int), (int, int))>(
                    ((a.0 as int, a.1 as int), (b.0 as int, b.1 as int)),
                ),
            }
        }),
        r matches Some((a, b)) ==> 0 <= a.0 < width && 0 <= a.1 < height && 0 <= b.0 < width
            && 0 <= b.1 < height,
        (within(p0.0 as int, 0, width - 1) && within(p1.0 as int, 0, width - 1) && within(
            p0.1 as int,
            0,
            height - 1,
        ) && within(p1.1 as int, 0, height - 1)) ==> r == Some((p0, p1)),
        ((p0.0 < 0 && p1.0 < 0) || (p0.0 > width - 1 && p1.0 > width - 1)) && !(p0.1 == p1.1
            && within(p0.1 as int, 0, height - 1)) ==> r is None,
        ((p0.1 < 0 && p1.1 < 0) || (p0.1 > height - 1 && p1.1 > height - 1)) && !(p0.0 == p1.0
            && within(p0.0 as int, 0, width - 1)) ==> r is None,
{
    let w = width as i32;
    let h = height as i32;
    let (x0, y0) = p0;
    let (x1, y1) = p1;
    let max_x = w - 1;
    let max_y = h - 1;

    // Fast common case: both points already inside, nothing to clip.
    if in_range(x0, 0, max_x) && in_range(x1, 0, max_x) && in_range(y0, 0, max_y) && in_range(
        y1,
        0,
        max_y,
    ) {
        return Some(((x0, y0), (x1, y1)));
    }
    // Axis-aligned segments are handled directly so the general case never
    // divides by a zero direction component.

    if x0 == x1 {
        let cy0 = clamp(y0, 0, h - 1);
        let cy1 = clamp(y1, 0, h - 1);
        return if in_range(x0, 0, max_x) {
            Some(((x0, cy0), (x1, cy1)))
        } else {
            None
        };
    }
    if y0 == y1 {
        let cx0 = clamp(x0, 0, w - 1);
        let cx1 = clamp(x1, 0, w - 1);
        return if in_range(y0, 0, max_y) {
            Some(((cx0, y0), (cx1, y1)))
        } else {
            None
        };
    }
    // Re-arrange the endpoints so that the first has the smaller x, then run
    // the general candidate selection.
    let r = if x0 < x1 {
        clip_general_exec(x0, y0, x1, y1, w, h)
    } else {
        clip_general_exec(x1, y1, x0, y0, w, h)
    };
    proof {
        let (sx0, sy0, sx1, sy1) = if x0 < x1 {
            (x0 as int, y0 as int, x1 as int, y1 as int)
        } else {
            (x1 as int, y1 as int, x0 as int, y0 as int)
        };
        if ((p0.0 < 0 && p1.0 < 0) || (p0.0 > w - 1 && p1.0 > w - 1)) || ((p0.1 < 0 && p1.1 < 0)
            || (p0.1 > h - 1 && p1.1 > h - 1)) {
            lemma_clip_general_empty(sx0, sy0, sx1, sy1, w as int, h as int);
        }
    }
    r
}

proof fn lemma_mul_abs_bound(a: int, ab: int, b: int, bb: int)
    requires
        -ab <= a <= ab,
        -bb <= b <= bb,
        0 <= ab,
        0 <= bb,
    ensures
        -(ab * bb) <= a * b <= ab * bb,
{
    assert(-(ab * bb) <= a * b <= ab * bb) by (nonlinear_arith)
        requires
            -ab <= a <= ab,
            -bb <= b <= bb,
            0 <= ab,
            0 <= bb,
    ;
}

} // verus!
