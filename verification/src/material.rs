//! Surface materials and the conversions between linear fixed-point color
//! vectors and display-range byte colors.

use vstd::prelude::*;
use crate::fixed::{ONE, divf, clamp_spec, div_floor128, clampi, lemma_divf_range};
use crate::vec3::Vec3;

verus! {

/// Magnitude limit (2^24, i.e. 256 whole units) for color channels and
/// albedo weights held by a well-formed material.
pub const COLOR_LIM: i64 = 0x100_0000i64;

/// A display color: one byte per channel, alpha included.
#[derive(Clone, Copy, Debug, PartialEq, Eq, Structural)]
pub struct Color {
    pub r: u8,
    pub g: u8,
    pub b: u8,
    pub a: u8,
}

impl Color {
    pub fn new(r: u8, g: u8, b: u8, a: u8) -> (c: Color)
        ensures
            c == (Color { r, g, b, a }),
    {
        Color { r, g, b, a }
    }
}

/// Per-surface reflectance parameters. `albedo` weights the diffuse and
/// specular contributions; `specular` is the Phong exponent. The optical
/// fields (`transparency`, `reflectivity`, `ior`) are carried but not
/// consumed by the shading pass.
#[derive(Clone, Copy, Debug)]
pub struct Material {
    pub diffuse: Vec3,
    pub albedo: [i64; 2],
    pub specular: u32,
    pub texture_id: Option<usize>,
    pub transparency: i64,
    pub reflectivity: i64,
    pub ior: i64,
}

impl Material {
    /// Channels and weights small enough for the shading arithmetic.
    pub open spec fn wf(self) -> bool {
        &&& self.diffuse.in_range(COLOR_LIM as int)
        &&& -(COLOR_LIM as int) <= self.albedo[0] <= COLOR_LIM as int
        &&& -(COLOR_LIM as int) <= self.albedo[1] <= COLOR_LIM as int
    }

    pub fn new(diffuse: Vec3, albedo: [i64; 2], specular: u32) -> (m: Material)
        ensures
            m.diffuse == diffuse,
            m.albedo == albedo,
            m.specular == specular,
            m.texture_id.is_none(),
            m.transparency == 0,
            m.reflectivity == 0,
            m.ior == ONE,
    {
        Material {
            diffuse,
            albedo,
            specular,
            texture_id: None,
            transparency: 0,
            reflectivity: 0,
            ior: ONE,
        }
    }

    /// The same material, pointing at a texture in the texture store.
    pub fn with_texture(self, tex_id: usize) -> (m: Material)
        ensures
            m == (Material { texture_id: Some(tex_id), ..self }),
    {
        Material { texture_id: Some(tex_id), ..self }
    }

    /// The same material with the (unconsumed) optical fields replaced.
    pub fn with_optics(self, transparency: i64, reflectivity: i64, ior: i64) -> (m: Material)
        ensures
            m == (Material { transparency, reflectivity, ior, ..self }),
    {
        Material { transparency, reflectivity, ior, ..self }
    }

    /// The all-black material used by the empty hit record.
    pub open spec fn black_spec() -> Material {
        Material {
            diffuse: Vec3 { x: 0i64, y: 0i64, z: 0i64 },
            albedo: [0i64, 0i64],
            specular: 0u32,
            texture_id: None,
            transparency: 0i64,
            reflectivity: 0i64,
            ior: ONE,
        }
    }

    pub fn black() -> (m: Material)
        ensures
            m == Material::black_spec(),
    {
        Material {
            diffuse: Vec3 { x: 0, y: 0, z: 0 },
            albedo: [0, 0],
            specular: 0,
            texture_id: None,
            transparency: 0,
            reflectivity: 0,
            ior: ONE,
        }
    }
}

/// What one linear fixed-point channel becomes on screen: scaled by 255
/// and clamped into a byte.
pub open spec fn channel_spec(c: int) -> int {
    clamp_spec(divf(c * 255, ONE as int), 0, 255)
}

/// A linear color vector brought to display range: each channel scaled by
/// 255, floor-rounded and clamped to `[0, 255]`; alpha is fully opaque.
pub fn vector3_to_color(v: Vec3) -> (c: Color)
    requires
        v.in_range(0x40_0000_0000_0000),
    ensures
        c.r == channel_spec(v.x as int),
        c.g == channel_spec(v.y as int),
        c.b == channel_spec(v.z as int),
        c.a == 255,
{
    let r: u8 = channel_exec(v.x);
    let g: u8 = channel_exec(v.y);
    let b: u8 = channel_exec(v.z);
    Color { r, g, b, a: 255 }
}

/// One channel of `vector3_to_color`, exactly `channel_spec`.
fn channel_exec(c: i64) -> (r: u8)
    requires
        -0x40_0000_0000_0000 <= c <= 0x40_0000_0000_0000,
    ensures
        r == channel_spec(c as int),
{
    let scaled: i128 = div_floor128((c as i128) * 255, ONE as i128);
    proof {
        assert(-(0x4000_0000_0000 * (ONE as int)) <= (c as int) * 255
            && (c as int) * 255 <= 0x4000_0000_0000 * (ONE as int)) by (nonlinear_arith)
            requires -0x40_0000_0000_0000 <= (c as int) <= 0x40_0000_0000_0000;
        lemma_divf_range((c as int) * 255, ONE as int, 0x4000_0000_0000);
    }
    let clamped: i64 = clampi(scaled as i64, 0, 255);
    clamped as u8
}

/// A byte color lifted back to a linear fixed-point vector: each channel
/// divided by 255, so 255 maps to exactly `ONE`. Alpha is dropped.
pub fn color_to_vector3(c: Color) -> (v: Vec3)
    ensures
        v.x == divf(c.r as int * ONE as int, 255),
        v.y == divf(c.g as int * ONE as int, 255),
        v.z == divf(c.b as int * ONE as int, 255),
        v.in_range(ONE as int),
        0 <= v.x && 0 <= v.y && 0 <= v.z,
{
    let x: i128 = div_floor128((c.r as i128) * (ONE as i128), 255);
    let y: i128 = div_floor128((c.g as i128) * (ONE as i128), 255);
    let z: i128 = div_floor128((c.b as i128) * (ONE as i128), 255);
    proof {
        lemma_divf_range((c.r as i128 * ONE as i128) as int, 255, ONE as int);
        lemma_divf_range((c.g as i128 * ONE as i128) as int, 255, ONE as int);
        lemma_divf_range((c.b as i128 * ONE as i128) as int, 255, ONE as int);
        crate::fixed::lemma_divf_bound((c.r as i128 * ONE as i128) as int, 255);
        crate::fixed::lemma_divf_bound((c.g as i128 * ONE as i128) as int, 255);
        crate::fixed::lemma_divf_bound((c.b as i128 * ONE as i128) as int, 255);
    }
    Vec3 { x: x as i64, y: y as i64, z: z as i64 }
}

/// An overbright channel saturates at 255 and a non-positive one at 0:
/// display conversion never wraps.
pub proof fn lemma_channel_saturates(c: int)
    ensures
        c >= ONE as int ==> channel_spec(c) == 255,
        c <= 0 ==> channel_spec(c) == 0,
        0 <= channel_spec(c) <= 255,
{
    if c >= ONE as int {
        crate::fixed::lemma_divf_ordered(255 * ONE as int, c * 255, ONE as int);
        crate::fixed::lemma_divf_exact(255, ONE as int);
        assert(c * 255 >= 255 * ONE as int) by (nonlinear_arith)
            requires c >= ONE as int;
    }
    if c <= 0 {
        assert(c * 255 <= 0) by (nonlinear_arith)
            requires c <= 0;
        crate::fixed::lemma_divf_bound(c * 255, ONE as int);
    }
}

} // verus!
