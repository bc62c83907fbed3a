//! Colors and gradient generation.
//!
//! A gradient from a start color to an end color with `n` steps blends each
//! channel at factors `1/n, 2/n, ..., n/n`: the first color already lies one
//! step away from the start, and the last color is exactly the end color.

use vstd::arithmetic::div_mod::{lemma_div_is_ordered, lemma_div_multiples_vanish};
use vstd::prelude::*;

verus! {

/// One true-color value: a red/green/blue triple, one channel per field.
#[derive(Debug, Copy, Clone, PartialEq, Eq, Structural)]
pub struct Rgb {
    pub r: u32,
    pub g: u32,
    pub b: u32,
}

/// The blend of a start channel `s` and an end channel `e` at blend factor
/// `num/den`, with the division truncated toward zero.
pub open spec fn blend_channel(s: int, e: int, num: int, den: int) -> int {
    (e * num + s * (den - num)) / den
}

/// Color `i` (0-based) of a gradient of `steps` colors from `start` to
/// `end`: each channel blended at factor `(i + 1) / steps`.
pub open spec fn gradient_color(start: Rgb, end: Rgb, i: int, steps: int) -> Rgb {
    Rgb {
        r: blend_channel(start.r as int, end.r as int, i + 1, steps) as u32,
        g: blend_channel(start.g as int, end.g as int, i + 1, steps) as u32,
        b: blend_channel(start.b as int, end.b as int, i + 1, steps) as u32,
    }
}

/// A blended channel lies between the two endpoint channels, so in
/// particular it fits the channel type.
pub proof fn lemma_blend_channel_bounds(s: int, e: int, num: int, den: int)
    requires
        0 <= s,
        0 <= e,
        1 <= den,
        0 <= num <= den,
    ensures
        vstd::math::min(s, e) <= blend_channel(s, e, num, den) <= vstd::math::max(s, e),
{
    let lo = vstd::math::min(s, e);
    let hi = vstd::math::max(s, e);
    let sum = e * num + s * (den - num);
    assert(den * lo <= sum <= den * hi) by (nonlinear_arith)
        requires
            lo <= s <= hi,
            lo <= e <= hi,
            1 <= den,
            0 <= num <= den,
            sum == e * num + s * (den - num),
    ;
    lemma_div_is_ordered(den * lo, sum, den);
    lemma_div_is_ordered(sum, den * hi, den);
    lemma_div_multiples_vanish(lo, den);
    lemma_div_multiples_vanish(hi, den);
}

/// At blend factor `den/den` the blend is exactly the end channel.
pub proof fn lemma_blend_channel_full(s: int, e: int, den: int)
    requires
        0 <= s,
        0 <= e,
        1 <= den,
    ensures
        blend_channel(s, e, den, den) == e,
{
    assert(e * den + s * (den - den) == den * e) by (nonlinear_arith);
    lemma_div_multiples_vanish(e, den);
}

/// One channel of one gradient color, computed exactly as
/// [`blend_channel`] says, in 64-bit arithmetic that cannot overflow.
fn blend_exec(s: u32, e: u32, num: u32, den: u32) -> (c: u32)
    requires
        1 <= den,
        num <= den,
    ensures
        c == blend_channel(s as int, e as int, num as int, den as int),
{
    proof {
        let m = u32::MAX as int;
        assert(e as int * num as int + s as int * (den - num) as int <= m * den as int
            <= m * m) by (nonlinear_arith)
            requires
                s <= m,
                e <= m,
                1 <= den <= m,
                num <= den,
        ;
        assert(0 <= e as int * num as int + s as int * (den - num) as int) by (nonlinear_arith)
            requires
                0 <= s,
                0 <= e,
                0 <= num <= den,
        ;
        lemma_blend_channel_bounds(s as int, e as int, num as int, den as int);
    }
    let wide: u64 = e as u64 * num as u64 + s as u64 * (den - num) as u64;
    (wide / den as u64) as u32
}

/// The gradient from `start` to `end` in `steps` steps.
///
/// Returns exactly `steps` colors; color `i` is [`gradient_color`] of `i`,
/// so the last color (when `steps >= 1`) is exactly `end` — see
/// [`lemma_gradient_last_is_end`]. A step count of zero yields an empty
/// gradient.
pub fn get_grad(start: &Rgb, end: &Rgb, steps: u32) -> (grad: Vec<Rgb>)
    ensures
        grad@.len() == steps,
        forall|i: int|
            0 <= i < steps ==> grad@[i] == gradient_color(*start, *end, i, steps as int),
{
    let mut grad: Vec<Rgb> = Vec::new();
    let mut k: u32 = 0;
    while k < steps
        invariant
            k <= steps,
            grad@.len() == k,
            forall|i: int|
                0 <= i < k ==> grad@[i] == gradient_color(*start, *end, i, steps as int),
        decreases steps - k,
    {
        let c = Rgb {
            r: blend_exec(start.r, end.r, k + 1, steps),
            g: blend_exec(start.g, end.g, k + 1, steps),
            b: blend_exec(start.b, end.b, k + 1, steps),
        };
        grad.push(c);
        k = k + 1;
    }
    grad
}

/// Every channel of every gradient color lies between the corresponding
/// channels of the two endpoint colors.
pub proof fn lemma_gradient_channel_bounds(start: Rgb, end: Rgb, i: int, steps: int)
    requires
        0 <= i < steps,
    ensures
        vstd::math::min(start.r as int, end.r as int) <= gradient_color(start, end, i, steps).r as int
            <= vstd::math::max(start.r as int, end.r as int),
        vstd::math::min(start.g as int, end.g as int) <= gradient_color(start, end, i, steps).g as int
            <= vstd::math::max(start.g as int, end.g as int),
        vstd::math::min(start.b as int, end.b as int) <= gradient_color(start, end, i, steps).b as int
            <= vstd::math::max(start.b as int, end.b as int),
{
    lemma_blend_channel_bounds(start.r as int, end.r as int, i + 1, steps);
    lemma_blend_channel_bounds(start.g as int, end.g as int, i + 1, steps);
    lemma_blend_channel_bounds(start.b as int, end.b as int, i + 1, steps);
}

/// The last color of a non-empty gradient is exactly the end color. In
/// particular a gradient of a single step consists of the end color alone.
pub proof fn lemma_gradient_last_is_end(start: Rgb, end: Rgb, steps: int)
    requires
        1 <= steps,
    ensures
        gradient_color(start, end, steps - 1, steps) == end,
{
    lemma_blend_channel_full(start.r as int, end.r as int, steps);
    lemma_blend_channel_full(start.g as int, end.g as int, steps);
    lemma_blend_channel_full(start.b as int, end.b as int, steps);
}

} // verus!
