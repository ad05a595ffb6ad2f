//! Geometry and colour: perspective projection, squared distance and
//! alpha-blended colour packing.

use crate::simple_random::{lcg_output, lcg_step, scale_into, SimpleRng};
use vstd::prelude::*;

verus! {

/// One whole, in millionths.
pub const ONE: i32 = 1_000_000;

/// A colour channel scaled by a blend factor given in millionths, rounded
/// down.
pub open spec fn scale_channel(channel: u8, alpha: u32) -> u32 {
    ((channel as int * alpha as int) / 1_000_000) as u32
}

/// The packed colour `0xRRGGBB` of three channels, each scaled by `alpha`.
pub open spec fn spec_blend_color(r: u8, g: u8, b: u8, alpha: u32) -> u32 {
    (scale_channel(r, alpha) << 16) | (scale_channel(g, alpha) << 8) | scale_channel(b, alpha)
}

/// With a blend factor of at most one, every scaled channel fits a byte, so
/// the packed colour is the three bytes side by side and has no bit above
/// the 24th.
pub proof fn lemma_blend_color_packs(r: u8, g: u8, b: u8, alpha: u32)
    requires
        alpha <= ONE,
    ensures
        scale_channel(r, alpha) <= r,
        scale_channel(g, alpha) <= g,
        scale_channel(b, alpha) <= b,
        spec_blend_color(r, g, b, alpha) == scale_channel(r, alpha) * 65536 + scale_channel(
            g,
            alpha,
        ) * 256 + scale_channel(b, alpha),
        spec_blend_color(r, g, b, alpha) <= 0xFFFFFF,
{
    lemma_scale_channel_bound(r, alpha);
    lemma_scale_channel_bound(g, alpha);
    lemma_scale_channel_bound(b, alpha);
    let rs: u32 = scale_channel(r, alpha);
    let gs: u32 = scale_channel(g, alpha);
    let bs: u32 = scale_channel(b, alpha);
    assert(((rs << 16) | (gs << 8) | bs) == rs * 65536 + gs * 256 + bs && ((rs << 16) | (gs << 8)
        | bs) <= 0xFFFFFF) by (bit_vector)
        requires
            rs <= 255,
            gs <= 255,
            bs <= 255,
    ;
}

/// A channel scaled by a factor of at most one does not grow.
pub proof fn lemma_scale_channel_bound(channel: u8, alpha: u32)
    requires
        alpha <= ONE,
    ensures
        scale_channel(channel, alpha) == (channel as int * alpha as int) / 1_000_000,
        scale_channel(channel, alpha) <= channel,
{
    assert(0 <= (channel as int * alpha as int) / 1_000_000 <= channel) by (nonlinear_arith)
        requires
            0 <= alpha <= 1_000_000,
            0 <= channel,
    ;
}

/// Scales each channel by `alpha`, a factor in millionths, rounding down, and
/// packs the three as `0xRRGGBB`. A factor above one is not clamped.
pub fn blend_color(r: u8, g: u8, b: u8, alpha: u32) -> (c: u32)
    ensures
        c == spec_blend_color(r, g, b, alpha),
        alpha <= ONE ==> c <= 0xFFFFFF && c == scale_channel(r, alpha) * 65536 + scale_channel(
            g,
            alpha,
        ) * 256 + scale_channel(b, alpha),
{
    let rs: u32 = scaled(r, alpha);
    let gs: u32 = scaled(g, alpha);
    let bs: u32 = scaled(b, alpha);
    proof {
        if alpha <= ONE {
            lemma_blend_color_packs(r, g, b, alpha);
        }
    }
    (rs << 16) | (gs << 8) | bs
}

fn scaled(channel: u8, alpha: u32) -> (s: u32)
    ensures
        s == scale_channel(channel, alpha),
{
    assert(0 <= (channel as int * alpha as int) <= 255 * 0xFFFF_FFFF && (channel as int
        * alpha as int) / 1_000_000 <= 0xFFFF_FFFF) by (nonlinear_arith)
        requires
            0 <= channel <= 255,
            0 <= alpha <= 0xFFFF_FFFF,
    ;
    ((channel as u64 * alpha as u64) / 1_000_000) as u32
}

/// Squared Euclidean distance between two points of the plane.
pub open spec fn spec_distance_squared(x1: int, y1: int, x2: int, y2: int) -> int {
    (x2 - x1) * (x2 - x1) + (y2 - y1) * (y2 - y1)
}

/// The squared distance does not depend on which point is named first.
pub proof fn lemma_distance_squared_symmetric(a: int, b: int, c: int, d: int)
    ensures
        spec_distance_squared(a, b, c, d) == spec_distance_squared(c, d, a, b),
        spec_distance_squared(a, b, c, d) >= 0,
{
    assert((c - a) * (c - a) == (a - c) * (a - c)) by (nonlinear_arith);
    assert((d - b) * (d - b) == (b - d) * (b - d)) by (nonlinear_arith);
    assert((c - a) * (c - a) >= 0) by (nonlinear_arith);
    assert((d - b) * (d - b) >= 0) by (nonlinear_arith);
}

/// Squared Euclidean distance between `(x1, y1)` and `(x2, y2)`.
pub fn distance_squared(x1: i32, y1: i32, x2: i32, y2: i32) -> (d: u128)
    ensures
        d == spec_distance_squared(x1 as int, y1 as int, x2 as int, y2 as int),
        d == spec_distance_squared(x2 as int, y2 as int, x1 as int, y1 as int),
{
    let dx: i64 = x2 as i64 - x1 as i64;
    let dy: i64 = y2 as i64 - y1 as i64;
    proof {
        lemma_distance_squared_symmetric(x1 as int, y1 as int, x2 as int, y2 as int);
        assert(0 <= dx * dx <= 0x1_0000_0000 * 0x1_0000_0000) by (nonlinear_arith)
            requires
                -0x1_0000_0000 <= dx <= 0x1_0000_0000,
        ;
        assert(0 <= dy * dy <= 0x1_0000_0000 * 0x1_0000_0000) by (nonlinear_arith)
            requires
                -0x1_0000_0000 <= dy <= 0x1_0000_0000,
        ;
    }
    let sx: i128 = (dx as i128) * (dx as i128);
    let sy: i128 = (dy as i128) * (dy as i128);
    (sx + sy) as u128
}

/// The quotient of `n` by `d`, rounded toward zero.
pub open spec fn trunc_div(n: int, d: int) -> int {
    if n >= 0 {
        n / d
    } else {
        -((-n) / d)
    }
}

/// The quotient of `n` by a positive `d`, rounded toward zero.
pub fn div_toward_zero(n: i128, d: i128) -> (q: i128)
    requires
        d > 0,
        n > i128::MIN,
    ensures
        q == trunc_div(n as int, d as int),
        n >= 0 ==> 0 <= q <= n,
        n < 0 ==> n <= q <= 0,
{
    if n >= 0 {
        let q: u128 = (n as u128) / (d as u128);
        assert(q <= n) by (nonlinear_arith)
            requires
                q == (n as int) / (d as int),
                n >= 0,
                d >= 1,
        ;
        q as i128
    } else {
        let m: u128 = (-n) as u128;
        let q: u128 = m / (d as u128);
        assert(q <= m) by (nonlinear_arith)
            requires
                q == (m as int) / (d as int),
                m >= 0,
                d >= 1,
        ;
        -(q as i128)
    }
}

/// Numerator of a projected screen coordinate: the coordinate itself is
/// `c / z * extent / 2 + extent / 2`, which is `extent * (c + z)` over `2 * z`.
pub open spec fn projected_num(c: int, z: int, extent: int) -> int {
    extent * (c + z)
}

/// The pixel that a coordinate `c` at depth `z` projects to on an axis
/// `extent` pixels long: the projected coordinate rounded toward zero.
pub open spec fn spec_project(c: int, z: int, extent: int) -> int {
    trunc_div(projected_num(c, z, extent), 2 * z)
}

/// Projects one coordinate at depth `z > 0` to its pixel on an axis `extent`
/// pixels long.
pub fn project_axis(c: i32, z: i32, extent: usize) -> (p: i128)
    requires
        z > 0,
    ensures
        p == spec_project(c as int, z as int, extent as int),
        -0x1_0000_0000_0000_0000_0000_0000 <= p <= 0x1_0000_0000_0000_0000_0000_0000,
{
    let sum: i64 = c as i64 + z as i64;
    let den: u128 = 2 * (z as u128);
    if sum >= 0 {
        assert(0 <= extent * sum <= 0xFFFF_FFFF_FFFF_FFFF * 0x1_0000_0000) by (nonlinear_arith)
            requires
                0 <= extent <= 0xFFFF_FFFF_FFFF_FFFF,
                0 <= sum <= 0x1_0000_0000,
        ;
        let num: u128 = (extent as u128) * (sum as u128);
        assert(num / den <= num) by (nonlinear_arith)
            requires
                den >= 1,
                num >= 0,
        ;
        (num / den) as i128
    } else {
        assert(0 <= extent * (-sum) <= 0xFFFF_FFFF_FFFF_FFFF * 0x1_0000_0000 && extent * (-sum)
            == -(extent * sum)) by (nonlinear_arith)
            requires
                0 <= extent <= 0xFFFF_FFFF_FFFF_FFFF,
                0 <= -sum <= 0x1_0000_0000,
        ;
        let num: u128 = (extent as u128) * ((-sum) as u128);
        assert(num / den <= num) by (nonlinear_arith)
            requires
                den >= 1,
                num >= 0,
        ;
        -((num / den) as i128)
    }
}

/// Perspective projection of the point `(x, y)` at depth `z > 0` onto a
/// screen of `width` by `height` pixels.
pub fn project(x: i32, y: i32, z: i32, width: usize, height: usize) -> (p: (i128, i128))
    requires
        z > 0,
    ensures
        p.0 == spec_project(x as int, z as int, width as int),
        p.1 == spec_project(y as int, z as int, height as int),
{
    (project_axis(x, z, width), project_axis(y, z, height))
}

/// The colour that a generator in state `seed` yields: three channels, each
/// the next byte modulo 255, blended by a factor drawn from `[0.5, 1)`.
pub open spec fn big_star_color_of(seed: u64) -> u32 {
    let s1 = lcg_step(seed);
    let s2 = lcg_step(s1);
    let s3 = lcg_step(s2);
    let s4 = lcg_step(s3);
    spec_blend_color(
        ((lcg_output(s1) as int % 256) % 255) as u8,
        ((lcg_output(s2) as int % 256) % 255) as u8,
        ((lcg_output(s3) as int % 256) % 255) as u8,
        scale_into(500_000, 1_000_000, lcg_output(s4) as int) as u32,
    )
}

/// Draws a colour from `rng`: four draws, as `big_star_color_of` describes.
pub fn big_star_color_from(rng: &mut SimpleRng) -> (c: u32)
    ensures
        c == big_star_color_of(old(rng).0),
        final(rng).0 == lcg_step(lcg_step(lcg_step(lcg_step(old(rng).0)))),
        c <= 0xFFFFFF,
{
    let r: u8 = rng.random_u8() % 255;
    let g: u8 = rng.random_u8() % 255;
    let b: u8 = rng.random_u8() % 255;
    let alpha: i32 = rng.random_range_f32(500_000..1_000_000);
    blend_color(r, g, b, alpha as u32)
}

/// A random colour for a big star, from a generator seeded by the clock.
/// Whatever the seed, the colour has no bit above the 24th.
pub fn generate_big_star_color() -> (c: u32)
    ensures
        c <= 0xFFFFFF,
        exists|seed: u64| c == big_star_color_of(seed),
{
    let mut rng = SimpleRng::new();
    let ghost seed = rng.0;
    let c = big_star_color_from(&mut rng);
    assert(c == big_star_color_of(seed));
    c
}

} // verus!
