use vstd::prelude::*;
use vstd::arithmetic::div_mod::{
    lemma_div_is_ordered, lemma_div_pos_is_pos, lemma_fundamental_div_mod_converse,
};
use vstd::arithmetic::mul::lemma_mul_upper_bound;
use crate::color::Color;
use rayon::iter::{IndexedParallelIterator, IntoParallelRefIterator, ParallelIterator};

verus! {

/// Numerator of the fixed quadratic linear-to-display curve at fixed-point
/// channel value `x`: the exact value of `10000 * 65535^2 * ((-0.9192*t +
/// 1.9192) * t)` for `t = x / 65535`, written over integers.
pub open spec fn srgb_num(x: int) -> int {
    (19192 * 65535) * x - (9192 * x) * x
}

/// The gamma curve on a fixed-point channel: `srgb_num` scaled back to the
/// channel range, rounded to the nearest value.
pub open spec fn srgb_of(x: u16) -> int {
    (srgb_num(x as int) + 327675000) / 655350000
}

/// The curve's numerator stays within the range that keeps the encoded
/// channel a channel.
proof fn lemma_srgb_num_bounds(x: int)
    requires
        0 <= x <= 65535,
    ensures
        0 <= srgb_num(x) <= 655350000 * 65535,
{
    assert(0 <= (19192 * 65535) * x - (9192 * x) * x) by (nonlinear_arith)
        requires
            0 <= x <= 65535,
    ;
    assert((19192 * 65535) * x - (9192 * x) * x <= 655350000 * 65535) by (nonlinear_arith)
        requires
            0 <= x <= 65535,
    ;
}

/// Law: the gamma map is monotonically non-decreasing over the whole channel
/// range.
pub proof fn lemma_srgb_monotone(a: u16, b: u16)
    requires
        a <= b,
    ensures
        srgb_of(a) <= srgb_of(b),
{
    assert(srgb_num(a as int) <= srgb_num(b as int)) by (nonlinear_arith)
        requires
            0 <= a as int <= b as int <= 65535,
    ;
    lemma_div_is_ordered(
        srgb_num(a as int) + 327675000,
        srgb_num(b as int) + 327675000,
        655350000,
    );
}

/// Law: the gamma map fixes the two ends of the channel range, so pure black
/// stays pure black and a full-intensity channel stays at full intensity.
pub proof fn lemma_srgb_fixed_points()
    ensures
        srgb_of(0) == 0,
        srgb_of(65535) == 65535,
{
    lemma_fundamental_div_mod_converse(srgb_num(0) + 327675000, 655350000, 0, 327675000);
    assert(srgb_num(65535) == 655350000 * 65535) by (nonlinear_arith);
    lemma_fundamental_div_mod_converse(
        655350000int * 65535 + 327675000,
        655350000,
        65535,
        327675000,
    );
}

/// The fixed quadratic approximation of the linear-light to display-encoded
/// curve, on a fixed-point channel: exactly `srgb_of`.
pub fn linear_to_srgb(x: u16) -> (r: u16)
    ensures
        r as int == srgb_of(x),
{
    proof {
        lemma_srgb_num_bounds(x as int);
        lemma_div_pos_is_pos(srgb_num(x as int) + 327675000, 655350000);
        lemma_div_is_ordered(
            srgb_num(x as int) + 327675000,
            655350000int * 65535 + 327675000,
            655350000,
        );
        lemma_fundamental_div_mod_converse(
            655350000int * 65535 + 327675000,
            655350000,
            65535,
            327675000,
        );
    }
    let xw = x as u64;
    let num: u64 = 19192 * 65535 * xw - 9192 * xw * xw;
    proof {
        assert(num == srgb_num(x as int)) by (nonlinear_arith)
            requires
                num == 19192 * 65535 * (x as u64) - 9192 * (x as u64) * (x as u64),
                0 <= x <= 65535,
                srgb_num(x as int) == (19192 * 65535) * (x as int) - (9192 * (x as int)) * (
                x as int),
                0 <= srgb_num(x as int),
    ;
    }
    ((num + 327675000) / 655350000) as u16
}

/// A fixed-point channel reduced to its eight-bit display form, rounded.
pub open spec fn byte_of(v: u16) -> int {
    ((v as int) * 255 + 32767) / 65535
}

proof fn lemma_byte_of_bounds(v: u16)
    ensures
        0 <= byte_of(v) <= 255,
{
    lemma_div_pos_is_pos((v as int) * 255 + 32767, 65535);
    assert((v as int) * 255 <= 65535 * 255) by (nonlinear_arith)
        requires
            v <= 65535,
    ;
    lemma_div_is_ordered((v as int) * 255 + 32767, 65535int * 255 + 32767, 65535);
    lemma_fundamental_div_mod_converse(65535int * 255 + 32767, 65535, 255, 32767);
}

fn channel_to_byte(v: u16) -> (r: u8)
    ensures
        r as int == byte_of(v),
{
    proof {
        lemma_byte_of_bounds(v);
    }
    (((v as u32) * 255 + 32767) / 65535) as u8
}

/// One pixel's display form: each linear channel pushed through the gamma
/// curve, reduced to eight bits, and the three bytes packed as
/// `(r << 16) | (g << 8) | b`, written here arithmetically.
pub open spec fn encode_pixel_spec(c: Color) -> int {
    byte_of(srgb_of(c.r) as u16) * 65536 + byte_of(srgb_of(c.g) as u16) * 256 + byte_of(
        srgb_of(c.b) as u16,
    )
}

/// Display-encodes one linear pixel; a pure function of that pixel alone,
/// which is what lets the whole buffer be encoded in parallel.
pub fn encode_pixel(c: &Color) -> (r: u32)
    ensures
        r as int == encode_pixel_spec(*c),
{
    let er = channel_to_byte(linear_to_srgb(c.r));
    let eg = channel_to_byte(linear_to_srgb(c.g));
    let eb = channel_to_byte(linear_to_srgb(c.b));
    (er as u32) * 65536 + (eg as u32) * 256 + (eb as u32)
}

/// Maps the linear framebuffer to the row-major display buffer, one packed
/// integer per pixel. Relies on rayon's `par_iter`, `map` and
/// `collect_into_vec`: `map` applies the closure to each element
/// independently, and `collect_into_vec` clears the target and collects the
/// results in the input's order, so the output is exactly the per-pixel
/// encoding whatever the number of workers.
#[verifier::external_body]
pub fn gamma_correct_buffer(in_buffer: &[Color], out_buffer: &mut Vec<u32>)
    ensures
        final(out_buffer)@.len() == in_buffer@.len(),
        forall|i: int|
            0 <= i < in_buffer@.len() ==> final(out_buffer)@[i] as int == encode_pixel_spec(
                in_buffer@[i],
            ),
{
    in_buffer.par_iter().map(encode_pixel).collect_into_vec(out_buffer);
}

/// Rounded linear interpolation between `x0` and `x1` at the fraction
/// `num / den`.
pub open spec fn lerp(num: int, den: int, x0: int, x1: int) -> int {
    (x0 * (den - num) + x1 * num + den / 2) / den
}

/// Interpolates between `x0` (at fraction zero) and `x1` (at fraction one),
/// rounding to the nearest integer.
pub fn interp(num: u32, den: u32, x0: u32, x1: u32) -> (r: u32)
    requires
        1 <= den,
        num <= den,
    ensures
        r as int == lerp(num as int, den as int, x0 as int, x1 as int),
{
    let hi: u64 = if x0 < x1 {
        x1 as u64
    } else {
        x0 as u64
    };
    proof {
        assert((x0 as int) * ((den - num) as int) + (x1 as int) * (num as int) <= hi * (
        den as int)) by (nonlinear_arith)
            requires
                0 <= num <= den,
                x0 <= hi,
                x1 <= hi,
                0 <= x0,
                0 <= x1,
        ;
        lemma_mul_upper_bound(hi as int, u32::MAX as int, den as int, u32::MAX as int);
        assert((x0 as int) * ((den - num) as int) >= 0 && (x1 as int) * (num as int) >= 0)
            by (nonlinear_arith)
            requires
                0 <= num <= den,
                0 <= x0,
                0 <= x1,
        ;
    }
    let v: u64 = (x0 as u64) * ((den - num) as u64) + (x1 as u64) * (num as u64);
    proof {
        assert(v <= hi * (den as int));
        lemma_div_pos_is_pos(v as int + (den as int) / 2, den as int);
        lemma_div_is_ordered(
            v as int + (den as int) / 2,
            hi * (den as int) + (den as int) / 2,
            den as int,
        );
        lemma_fundamental_div_mod_converse(
            hi * (den as int) + (den as int) / 2,
            den as int,
            hi as int,
            (den as int) / 2,
        );
        vstd::arithmetic::div_mod::lemma_mod_bound(den as int, 2);
        vstd::arithmetic::div_mod::lemma_fundamental_div_mod(den as int, 2);
    }
    ((v + (den / 2) as u64) / (den as u64)) as u32
}

} // verus!
