//! The per-pixel procedural material evaluator: a pure function from
//! (shader kind, base tint, world position, Lambert term) to an RGBA
//! color, one deterministic rule per planet kind.
//!
//! The trigonometric "noise" of each rule is the crate's fixed-point sine
//! and cosine; a world coordinate is converted to binary angle units by a
//! per-rule frequency constant (one radian is about 41722 units, so for
//! instance 0.7 rad becomes the constant 29205).  All channels are clamped
//! to the unit interval before quantization to 8 bits; alpha is always
//! 255.

use vstd::prelude::*;
use crate::fixed::{
    abs_int, clamp01, lemma_mul_fp_le, mul_g, spec_clamp01, spec_cos, spec_lerp, spec_mul_fp,
    spec_sin, cos_bau, sin_bau,
};
use crate::framebuffer::Rgba;
use crate::vec3::{spec_dot, spec_len, spec_normalize, vec_bounded, Vec3Fx, lemma_mul_abs_bound};

verus! {

/// The closed set of planet materials.
#[derive(Clone, Copy, Debug, PartialEq, Eq, Structural)]
pub enum PlanetShaderKind {
    Sun,
    Earth,
    SuperEarth,
    Volcanic,
    Ice,
    Gas,
    Default,
}

/// A color channel byte widened to fixed point: `c / 255` in real terms.
pub open spec fn spec_chan(c: u8) -> int {
    (c * 65536) / 255
}

/// Quantization of a fixed-point channel to one byte: clamp to the unit
/// interval, then truncate `v * 255`.
pub open spec fn spec_quant(v: int) -> int {
    (spec_clamp01(v) * 255) / 65536
}

/// The two-tone blend `a * (1 - t) + b * t` on fixed-point channels.
pub open spec fn spec_mix(a: int, b: int, t: int) -> int {
    spec_mul_fp(a, 65536 - t) + spec_mul_fp(b, t)
}

/// The `sin(u * ku) * cos(v * kv)` noise stand-in shared by the surface
/// rules, on fixed-point world coordinates and frequencies.
pub open spec fn spec_noise(u: int, ku: int, v: int, kv: int) -> int {
    spec_mul_fp(spec_sin(spec_mul_fp(u, ku)), spec_cos(spec_mul_fp(v, kv)))
}

/// The two-tone blend on unit-interval channels.
fn mix(a: i64, b: i64, t: i64) -> (r: i64)
    requires
        0 <= a <= 65536,
        0 <= b <= 65536,
        0 <= t <= 65536,
    ensures
        r == spec_mix(a as int, b as int, t as int),
        abs_int(r as int) <= 131072,
{
    let p = mul_g(a, 65536 - t, Ghost(65536), Ghost(65536));
    let q = mul_g(b, t, Ghost(65536), Ghost(65536));
    p + q
}

/// The noise stand-in on bounded world coordinates.
fn noise_at(u: i64, ku: i64, v: i64, kv: i64) -> (r: i64)
    requires
        abs_int(u as int) <= 0x7FFF_FFFF,
        abs_int(v as int) <= 0x7FFF_FFFF,
        0 <= ku <= 0x10_0000,
        0 <= kv <= 0x10_0000,
    ensures
        r == spec_noise(u as int, ku as int, v as int, kv as int),
        abs_int(r as int) <= 65536,
{
    let au = mul_g(u, ku, Ghost(0x7FFF_FFFF), Ghost(0x10_0000));
    let av = mul_g(v, kv, Ghost(0x7FFF_FFFF), Ghost(0x10_0000));
    let s = sin_bau(au);
    let c = cos_bau(av);
    mul_g(s, c, Ghost(65536), Ghost(65536))
}

/// A channel byte widened to fixed point.
pub fn chan(c: u8) -> (r: i64)
    ensures
        r == spec_chan(c),
        0 <= r <= 65536,
{
    let v = (c as i64) * 65536;
    proof {
        vstd::arithmetic::div_mod::lemma_div_pos_is_pos(v as int, 255);
        vstd::arithmetic::div_mod::lemma_div_is_ordered(v as int, 255int * 65536, 255);
    }
    v / 255
}

/// The Sun rule: a radial color gradient with self-glow.
pub open spec fn spec_shade_sun(wp: Vec3Fx, lambert: int) -> (int, int, int) {
    let d = spec_len(wp);
    let t0 = crate::fixed::spec_div_fp(d, 229376);
    let t = if t0 > 65536 {
        65536int
    } else {
        t0
    };
    let r = spec_lerp(65536, 65536, 65536 - t);
    let g = spec_lerp(58982, 39322, t);
    let b = spec_lerp(19661, 0, t);
    let glow = 32768 + spec_mul_fp(32768, lambert);
    (spec_mul_fp(r, glow), spec_mul_fp(g, glow), spec_mul_fp(b, glow))
}

/// The Earth-like and super-earth rule: latitude plus noise select ice,
/// land or ocean; a rim term brightens the silhouette; `rim_k` and the
/// three palette colors are the two variants' parameters.
pub open spec fn spec_shade_terra(
    wp: Vec3Fx,
    lambert: int,
    rim_k: int,
    ocean: (int, int, int),
    land: (int, int, int),
    ice: (int, int, int),
) -> (int, int, int) {
    let lat = wp.y as int;
    let noise = spec_noise(wp.x as int, 29205, wp.z as int, 20861);
    let mixv = spec_mul_fp(lat, 26214) + spec_mul_fp(noise, 39322);
    let col = if abs_int(lat) > 65536 {
        ice
    } else if mixv > 0 {
        land
    } else {
        ocean
    };
    let n = spec_normalize(wp);
    let rim = spec_mul_fp(rim_k, 65536 - abs_int(spec_dot(n, n)));
    let diffuse = 9830 + spec_mul_fp(49152, lambert) + rim;
    (spec_mul_fp(col.0, diffuse), spec_mul_fp(col.1, diffuse), spec_mul_fp(col.2, diffuse))
}

/// The volcanic rule: a two-tone red blend under a low-ambient diffuse.
pub open spec fn spec_shade_volcanic(wp: Vec3Fx, lambert: int) -> (int, int, int) {
    let noise = spec_noise(wp.x as int, 104304, wp.z as int, 125165);
    let t = spec_clamp01(spec_mul_fp(noise, 32768) + 32768);
    let diffuse = 19661 + spec_mul_fp(42598, lambert);
    (
        spec_mul_fp(spec_mix(22938, 36045, t), diffuse),
        spec_mul_fp(spec_mix(5243, 7864, t), diffuse),
        spec_mul_fp(spec_mix(3277, 5243, t), diffuse),
    )
}

/// The ice rule: a two-tone bluish blend with a `lambert^8` specular term.
pub open spec fn spec_shade_ice(wp: Vec3Fx, lambert: int) -> (int, int, int) {
    let noise = spec_noise(wp.z as int, 83443, wp.y as int, 125165);
    let t = spec_clamp01(spec_mul_fp(noise, 32768) + 32768);
    let l2 = spec_mul_fp(lambert, lambert);
    let l4 = spec_mul_fp(l2, l2);
    let l8 = spec_mul_fp(l4, l4);
    let spec_term = spec_mul_fp(13107, l8);
    let diffuse = 32768 + spec_mul_fp(32768, lambert);
    (
        spec_mul_fp(spec_mix(26214, 45875, t), diffuse) + spec_term,
        spec_mul_fp(spec_mix(45875, 58982, t), diffuse) + spec_mul_fp(spec_term, 58982),
        spec_mul_fp(spec_mix(58982, 65536, t), diffuse) + spec_mul_fp(spec_term, 39322),
    )
}

/// The gas-giant rule: horizontal banding plus turbulence, hazed by
/// distance from the origin.
pub open spec fn spec_shade_gas(wp: Vec3Fx, lambert: int) -> (int, int, int) {
    let band = spec_sin(spec_mul_fp(wp.y as int, 250330));
    let turb = spec_mul_fp(spec_noise(wp.x as int, 333773, wp.z as int, 250330), 13107);
    let t = spec_clamp01(spec_mul_fp(band, 32768) + 32768 + turb);
    let diffuse = 16384 + spec_mul_fp(49152, lambert);
    let hl0 = spec_mul_fp(spec_len(wp), 32768);
    let hl = if hl0 > 65536 {
        65536int
    } else {
        hl0
    };
    let haze = 65536 - spec_mul_fp(9830, hl);
    (
        spec_mul_fp(spec_mul_fp(spec_mix(45875, 62259, t), diffuse), haze),
        spec_mul_fp(spec_mul_fp(spec_mix(36045, 55706, t), diffuse), haze),
        spec_mul_fp(spec_mul_fp(spec_mix(26214, 45875, t), diffuse), haze),
    )
}

/// The default rule: the base tint under flat Lambert shading.
pub open spec fn spec_shade_default(base: Rgba, lambert: int) -> (int, int, int) {
    let diffuse = 19661 + spec_mul_fp(45875, lambert);
    (
        spec_mul_fp(spec_chan(base.r), diffuse),
        spec_mul_fp(spec_chan(base.g), diffuse),
        spec_mul_fp(spec_chan(base.b), diffuse),
    )
}

/// The fixed-point channel triple a kind's rule produces, before
/// quantization.
pub open spec fn spec_shade_rgb(
    kind: PlanetShaderKind,
    base: Rgba,
    wp: Vec3Fx,
    lambert: int,
) -> (int, int, int) {
    match kind {
        PlanetShaderKind::Sun => spec_shade_sun(wp, lambert),
        PlanetShaderKind::Earth => spec_shade_terra(
            wp,
            lambert,
            19661,
            (0, 13107, 45875),
            (0, 32768, 6554),
            (52429, 52429, 58982),
        ),
        PlanetShaderKind::SuperEarth => spec_shade_terra(
            wp,
            lambert,
            26214,
            (6554, 19661, 39322),
            (45875, 42598, 19661),
            (55706, 53740, 52429),
        ),
        PlanetShaderKind::Volcanic => spec_shade_volcanic(wp, lambert),
        PlanetShaderKind::Ice => spec_shade_ice(wp, lambert),
        PlanetShaderKind::Gas => spec_shade_gas(wp, lambert),
        PlanetShaderKind::Default => spec_shade_default(base, lambert),
    }
}

/// The color the material evaluator returns: the rule's channels clamped
/// to the unit interval and quantized, with alpha fixed at 255.
pub open spec fn spec_shade(
    kind: PlanetShaderKind,
    base: Rgba,
    wp: Vec3Fx,
    lambert: int,
) -> Rgba {
    let (r, g, b) = spec_shade_rgb(kind, base, wp, lambert);
    Rgba { r: spec_quant(r) as u8, g: spec_quant(g) as u8, b: spec_quant(b) as u8, a: 255 }
}

/// Quantizes a fixed-point channel to one byte.
pub fn quant(v: i64) -> (r: u8)
    ensures
        r == spec_quant(v as int),
{
    let c = clamp01(v);
    let w = c * 255;
    proof {
        vstd::arithmetic::div_mod::lemma_div_pos_is_pos(w as int, 65536);
        vstd::arithmetic::div_mod::lemma_div_is_ordered(w as int, 65536int * 255, 65536);
    }
    (w / 65536) as u8
}

/// The Sun rule.
fn shade_sun(wp: Vec3Fx, lambert: i64) -> (out: (i64, i64, i64))
    requires
        vec_bounded(wp, crate::vec3::VEC_LIMIT as int),
        0 <= lambert <= 65536,
    ensures
        ({
            let s = spec_shade_sun(wp, lambert as int);
            out.0 == s.0 && out.1 == s.1 && out.2 == s.2
        }),
{
    let d = wp.length();
    proof {
        lemma_mul_abs_bound(d as int, 65536, 0x1_0000_0000, 65536);
        crate::fixed::lemma_tdiv_bound(d as int * 65536, 229376);
        lemma_mul_abs_bound(d as int, 1, 0x1_0000_0000, 1);
    }
    let t0 = crate::fixed::div_fp(d, 229376);
    let t = if t0 > 65536 {
        65536
    } else {
        t0
    };
    let r = 65536 + mul_g(0, 65536 - t, Ghost(0), Ghost(65536));
    let g = 58982 + mul_g(-19660, t, Ghost(19660), Ghost(65536));
    let b = 19661 + mul_g(-19661, t, Ghost(19661), Ghost(65536));
    let glow = 32768 + mul_g(32768, lambert, Ghost(32768), Ghost(65536));
    (
        mul_g(r, glow, Ghost(65536), Ghost(65536)),
        mul_g(g, glow, Ghost(78642), Ghost(65536)),
        mul_g(b, glow, Ghost(39322), Ghost(65536)),
    )
}

/// The Earth-like / super-earth rule.
fn shade_terra(
    wp: Vec3Fx,
    lambert: i64,
    rim_k: i64,
    ocean: (i64, i64, i64),
    land: (i64, i64, i64),
    ice: (i64, i64, i64),
) -> (out: (i64, i64, i64))
    requires
        vec_bounded(wp, crate::vec3::VEC_LIMIT as int),
        0 <= lambert <= 65536,
        0 <= rim_k <= 65536,
        0 <= ocean.0 <= 65536 && 0 <= ocean.1 <= 65536 && 0 <= ocean.2 <= 65536,
        0 <= land.0 <= 65536 && 0 <= land.1 <= 65536 && 0 <= land.2 <= 65536,
        0 <= ice.0 <= 65536 && 0 <= ice.1 <= 65536 && 0 <= ice.2 <= 65536,
    ensures
        ({
            let s = spec_shade_terra(
                wp,
                lambert as int,
                rim_k as int,
                (ocean.0 as int, ocean.1 as int, ocean.2 as int),
                (land.0 as int, land.1 as int, land.2 as int),
                (ice.0 as int, ice.1 as int, ice.2 as int),
            );
            out.0 == s.0 && out.1 == s.1 && out.2 == s.2
        }),
{
    let lat = wp.y;
    let noise = noise_at(wp.x, 29205, wp.z, 20861);
    let mixv = mul_g(lat, 26214, Ghost(0x7FFF_FFFF), Ghost(26214)) + mul_g(
        noise,
        39322,
        Ghost(65536),
        Ghost(39322),
    );
    let alat = if lat < 0 {
        -lat
    } else {
        lat
    };
    let col = if alat > 65536 {
        ice
    } else if mixv > 0 {
        land
    } else {
        ocean
    };
    let n = wp.normalize();
    let dnn = n.dot(n);
    proof {
        lemma_mul_fp_le(n.x as int, n.x as int, 65536, 65536);
        lemma_mul_fp_le(n.y as int, n.y as int, 65536, 65536);
        lemma_mul_fp_le(n.z as int, n.z as int, 65536, 65536);
    }
    let adnn = if dnn < 0 {
        -dnn
    } else {
        dnn
    };
    let rim = mul_g(rim_k, 65536 - adnn, Ghost(65536), Ghost(262144));
    let diffuse = 9830 + mul_g(49152, lambert, Ghost(49152), Ghost(65536)) + rim;
    (
        mul_g(col.0, diffuse, Ghost(65536), Ghost(0x8_0000)),
        mul_g(col.1, diffuse, Ghost(65536), Ghost(0x8_0000)),
        mul_g(col.2, diffuse, Ghost(65536), Ghost(0x8_0000)),
    )
}

/// The volcanic rule.
fn shade_volcanic(wp: Vec3Fx, lambert: i64) -> (out: (i64, i64, i64))
    requires
        vec_bounded(wp, crate::vec3::VEC_LIMIT as int),
        0 <= lambert <= 65536,
    ensures
        ({
            let s = spec_shade_volcanic(wp, lambert as int);
            out.0 == s.0 && out.1 == s.1 && out.2 == s.2
        }),
{
    let noise = noise_at(wp.x, 104304, wp.z, 125165);
    let t = clamp01(mul_g(noise, 32768, Ghost(65536), Ghost(32768)) + 32768);
    let diffuse = 19661 + mul_g(42598, lambert, Ghost(42598), Ghost(65536));
    let m0 = mix(22938, 36045, t);
    let m1 = mix(5243, 7864, t);
    let m2 = mix(3277, 5243, t);
    (
        mul_g(m0, diffuse, Ghost(131072), Ghost(65536)),
        mul_g(m1, diffuse, Ghost(131072), Ghost(65536)),
        mul_g(m2, diffuse, Ghost(131072), Ghost(65536)),
    )
}

/// The ice rule.
fn shade_ice(wp: Vec3Fx, lambert: i64) -> (out: (i64, i64, i64))
    requires
        vec_bounded(wp, crate::vec3::VEC_LIMIT as int),
        0 <= lambert <= 65536,
    ensures
        ({
            let s = spec_shade_ice(wp, lambert as int);
            out.0 == s.0 && out.1 == s.1 && out.2 == s.2
        }),
{
    let noise = noise_at(wp.z, 83443, wp.y, 125165);
    let t = clamp01(mul_g(noise, 32768, Ghost(65536), Ghost(32768)) + 32768);
    let l2 = mul_g(lambert, lambert, Ghost(65536), Ghost(65536));
    let l4 = mul_g(l2, l2, Ghost(65536), Ghost(65536));
    let l8 = mul_g(l4, l4, Ghost(65536), Ghost(65536));
    let spec_term = mul_g(13107, l8, Ghost(13107), Ghost(65536));
    let diffuse = 32768 + mul_g(32768, lambert, Ghost(32768), Ghost(65536));
    let m0 = mix(26214, 45875, t);
    let m1 = mix(45875, 58982, t);
    let m2 = mix(58982, 65536, t);
    (
        mul_g(m0, diffuse, Ghost(131072), Ghost(65536)) + spec_term,
        mul_g(m1, diffuse, Ghost(131072), Ghost(65536)) + mul_g(
            spec_term,
            58982,
            Ghost(13107),
            Ghost(58982),
        ),
        mul_g(m2, diffuse, Ghost(131072), Ghost(65536)) + mul_g(
            spec_term,
            39322,
            Ghost(13107),
            Ghost(39322),
        ),
    )
}

/// The gas-giant rule.
fn shade_gas(wp: Vec3Fx, lambert: i64) -> (out: (i64, i64, i64))
    requires
        vec_bounded(wp, crate::vec3::VEC_LIMIT as int),
        0 <= lambert <= 65536,
    ensures
        ({
            let s = spec_shade_gas(wp, lambert as int);
            out.0 == s.0 && out.1 == s.1 && out.2 == s.2
        }),
{
    let ay = mul_g(wp.y, 250330, Ghost(0x7FFF_FFFF), Ghost(0x4_0000));
    let band = sin_bau(ay);
    let noise = noise_at(wp.x, 333773, wp.z, 250330);
    let turb = mul_g(noise, 13107, Ghost(65536), Ghost(13107));
    let t = clamp01(mul_g(band, 32768, Ghost(65536), Ghost(32768)) + 32768 + turb);
    let diffuse = 16384 + mul_g(49152, lambert, Ghost(49152), Ghost(65536));
    let d = wp.length();
    let hl0 = mul_g(d, 32768, Ghost(0x1_0000_0000), Ghost(32768));
    let hl = if hl0 > 65536 {
        65536
    } else {
        hl0
    };
    let haze = 65536 - mul_g(9830, hl, Ghost(9830), Ghost(0x8000_0000));
    proof {
        lemma_mul_fp_le(9830, hl as int, 9830, 0x8000_0000);
    }
    let m0 = mix(45875, 62259, t);
    let m1 = mix(36045, 55706, t);
    let m2 = mix(26214, 45875, t);
    let c0 = mul_g(m0, diffuse, Ghost(131072), Ghost(65536));
    let c1 = mul_g(m1, diffuse, Ghost(131072), Ghost(65536));
    let c2 = mul_g(m2, diffuse, Ghost(131072), Ghost(65536));
    (
        mul_g(c0, haze, Ghost(131072), Ghost(0x8000_0000)),
        mul_g(c1, haze, Ghost(131072), Ghost(0x8000_0000)),
        mul_g(c2, haze, Ghost(131072), Ghost(0x8000_0000)),
    )
}

/// The default rule.
fn shade_default(base: Rgba, lambert: i64) -> (out: (i64, i64, i64))
    requires
        0 <= lambert <= 65536,
    ensures
        ({
            let s = spec_shade_default(base, lambert as int);
            out.0 == s.0 && out.1 == s.1 && out.2 == s.2
        }),
{
    let diffuse = 19661 + mul_g(45875, lambert, Ghost(45875), Ghost(65536));
    (
        mul_g(chan(base.r), diffuse, Ghost(65536), Ghost(65536)),
        mul_g(chan(base.g), diffuse, Ghost(65536), Ghost(65536)),
        mul_g(chan(base.b), diffuse, Ghost(65536), Ghost(65536)),
    )
}

/// Maps (shader kind, base tint, world position, Lambert term) to the
/// pixel's RGBA color: one deterministic fixed-point rule per kind, all
/// channels clamped to the unit interval and quantized to 8 bits, alpha
/// always 255.
pub fn shade_planet(kind: PlanetShaderKind, base: Rgba, world_pos: Vec3Fx, lambert: i64) -> (out:
    Rgba)
    requires
        vec_bounded(world_pos, crate::vec3::VEC_LIMIT as int),
        0 <= lambert <= 65536,
    ensures
        out == spec_shade(kind, base, world_pos, lambert as int),
{
    let rgb = match kind {
        PlanetShaderKind::Sun => shade_sun(world_pos, lambert),
        PlanetShaderKind::Earth => shade_terra(
            world_pos,
            lambert,
            19661,
            (0, 13107, 45875),
            (0, 32768, 6554),
            (52429, 52429, 58982),
        ),
        PlanetShaderKind::SuperEarth => shade_terra(
            world_pos,
            lambert,
            26214,
            (6554, 19661, 39322),
            (45875, 42598, 19661),
            (55706, 53740, 52429),
        ),
        PlanetShaderKind::Volcanic => shade_volcanic(world_pos, lambert),
        PlanetShaderKind::Ice => shade_ice(world_pos, lambert),
        PlanetShaderKind::Gas => shade_gas(world_pos, lambert),
        PlanetShaderKind::Default => shade_default(base, lambert),
    };
    Rgba { r: quant(rgb.0), g: quant(rgb.1), b: quant(rgb.2), a: 255 }
}

} // verus!
