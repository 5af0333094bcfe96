use vstd::prelude::*;
use vstd::arithmetic::div_mod::{
    lemma_div_is_ordered, lemma_div_multiples_vanish, lemma_div_pos_is_pos,
};
use vstd::arithmetic::mul::lemma_mul_upper_bound;

verus! {

/// A linear-light color: red, green, blue and alpha, each channel a
/// fixed-point fraction of `CHANNEL_ONE` (`0` is 0.0, `CHANNEL_ONE` is 1.0).
/// Compositing arithmetic is only physically meaningful in this linear space;
/// the display-encoded form is the packed integer that the gamma stage
/// produces, and the two forms are never mixed in one buffer.
#[derive(Clone, Copy, PartialEq, Eq, Structural, Debug)]
pub struct Color {
    pub r: u16,
    pub g: u16,
    pub b: u16,
    pub a: u16,
}

/// Fixed-point representation of the channel value 1.0.
pub const CHANNEL_ONE: u16 = 65535;

impl Color {
    /// The same light channels at full alpha: the form the framebuffer keeps
    /// after a write, since it carries no persistent transparency.
    pub open spec fn solid(self) -> Color {
        Color { r: self.r, g: self.g, b: self.b, a: CHANNEL_ONE }
    }
}

/// One channel of `new` composited over `old` at coverage `num / den`:
/// the exact value of `(new*num + old*(den-num)) / den`, rounded down.
pub open spec fn blend_channel(new: u16, old: u16, num: int, den: int) -> int {
    (new * num + old * (den - num)) / den
}

/// `new` composited over `old` at fractional coverage `num / den`, channel by
/// channel; the stored alpha is forced to full, since the framebuffer
/// represents accumulated opaque appearance.
pub open spec fn blend_color(new: Color, old: Color, num: int, den: int) -> Color {
    Color {
        r: blend_channel(new.r, old.r, num, den) as u16,
        g: blend_channel(new.g, old.g, num, den) as u16,
        b: blend_channel(new.b, old.b, num, den) as u16,
        a: CHANNEL_ONE,
    }
}

/// A blended channel stays within the channel range.
pub proof fn lemma_blend_channel_bounds(new: u16, old: u16, num: int, den: int)
    requires
        0 <= num <= den,
        1 <= den,
    ensures
        0 <= blend_channel(new, old, num, den) <= CHANNEL_ONE,
{
    let v = new * num + old * (den - num);
    assert(0 <= v && v <= (CHANNEL_ONE as int) * den) by (nonlinear_arith)
        requires
            0 <= num <= den,
            1 <= den,
            0 <= new <= CHANNEL_ONE as int,
            0 <= old <= CHANNEL_ONE as int,
            v == new * num + old * (den - num),
    ;
    lemma_div_pos_is_pos(v, den);
    lemma_div_is_ordered(v, (CHANNEL_ONE as int) * den, den);
    lemma_div_multiples_vanish(CHANNEL_ONE as int, den);
    assert((CHANNEL_ONE as int) * den == den * (CHANNEL_ONE as int));
}

/// Full coverage replaces the stored pixel outright.
pub proof fn lemma_blend_full(new: Color, old: Color, den: int)
    requires
        1 <= den,
    ensures
        blend_color(new, old, den, den) == new.solid(),
{
    lemma_blend_channel_full(new.r, old.r, den);
    lemma_blend_channel_full(new.g, old.g, den);
    lemma_blend_channel_full(new.b, old.b, den);
}

proof fn lemma_blend_channel_full(new: u16, old: u16, den: int)
    requires
        1 <= den,
    ensures
        blend_channel(new, old, den, den) == new,
{
    assert(new * den + old * (den - den) == den * (new as int)) by (nonlinear_arith);
    lemma_div_multiples_vanish(new as int, den);
}

/// Runtime computation of one blended channel.
pub fn blend_channel_exec(new: u16, old: u16, num: u32, den: u32) -> (r: u16)
    requires
        1 <= den,
        num <= den,
    ensures
        r as int == blend_channel(new, old, num as int, den as int),
{
    proof {
        lemma_blend_channel_bounds(new, old, num as int, den as int);
        lemma_mul_upper_bound(new as int, CHANNEL_ONE as int, num as int, u32::MAX as int);
        lemma_mul_upper_bound(old as int, CHANNEL_ONE as int, (den - num) as int, u32::MAX as int);
    }
    let v: u64 = (new as u64) * (num as u64) + (old as u64) * ((den - num) as u64);
    (v / (den as u64)) as u16
}

} // verus!
