//! Decoded textures and the append-only store that hands out their ids.
//!
//! Decoding image files is the caller's concern: a texture enters the
//! store as plain width/height/pixel data.

use vstd::prelude::*;
use crate::fixed::{ONE, FX_LIM, divf, clamp_spec, div_floor128, clampi, lemma_divf_range};
use crate::material::Color;

verus! {

/// Largest accepted texture edge (16384 texels).
pub const TEX_DIM_LIM: usize = 0x4000;

/// A decoded image: row-major RGB(A) samples, immutable once built.
pub struct Texture {
    pub width: usize,
    pub height: usize,
    pub data: Vec<Color>,
}

impl Texture {
    /// Positive in-range dimensions and exactly one sample per texel.
    pub open spec fn wf(self) -> bool {
        &&& 1 <= self.width <= TEX_DIM_LIM
        &&& 1 <= self.height <= TEX_DIM_LIM
        &&& self.data@.len() == self.width * self.height
    }

    /// Wraps decoded pixel data.
    pub fn new(width: usize, height: usize, data: Vec<Color>) -> (t: Texture)
        requires
            1 <= width <= TEX_DIM_LIM,
            1 <= height <= TEX_DIM_LIM,
            data@.len() == width * height,
        ensures
            t.width == width,
            t.height == height,
            t.data == data,
            t.wf(),
    {
        Texture { width, height, data }
    }

    /// The texel column a U coordinate lands on: scaled by `width − 1`,
    /// rounded to nearest, and clamped into range.
    pub open spec fn texel_x(self, u: int) -> int {
        clamp_spec(divf(u * (self.width - 1) + 32768, ONE as int), 0, self.width - 1)
    }

    /// The texel row a V coordinate lands on: V is flipped so that texture
    /// space grows upward, then scaled, rounded and clamped like U.
    pub open spec fn texel_y(self, v: int) -> int {
        clamp_spec(divf(((ONE as int) - v) * (self.height - 1) + 32768, ONE as int), 0,
            self.height - 1)
    }

    /// The sample `get_color` returns.
    pub open spec fn sample_spec(self, u: int, v: int) -> Color {
        self.data@[self.texel_y(v) * self.width + self.texel_x(u)]
    }

    /// Samples the texture at UV coordinates nominally in `[0, ONE]`;
    /// out-of-range coordinates are clamped, never rejected.
    pub fn get_color(&self, u: i64, v: i64) -> (c: Color)
        requires
            self.wf(),
            -FX_LIM <= u <= FX_LIM,
            -FX_LIM <= v <= FX_LIM,
        ensures
            c == self.sample_spec(u as int, v as int),
    {
        proof {
            lemma_uv_product(u as int, (self.width - 1) as int);
            lemma_uv_product((ONE as int) - v as int, (self.height - 1) as int);
        }
        let xq: i128 = div_floor128(
            (u as i128) * ((self.width - 1) as i128) + 32768, ONE as i128);
        let yq: i128 = div_floor128(
            ((ONE as i128) - (v as i128)) * ((self.height - 1) as i128) + 32768, ONE as i128);
        let xc: i64 = clampi(xq as i64, 0, (self.width - 1) as i64);
        let yc: i64 = clampi(yq as i64, 0, (self.height - 1) as i64);
        let x: usize = xc as usize;
        let y: usize = yc as usize;
        proof {
            assert((y as int) * (self.width as int) + (x as int)
                <= ((self.height - 1) as int) * (self.width as int) + ((self.width - 1) as int)
                && ((self.height - 1) as int) * (self.width as int)
                == (self.height as int) * (self.width as int) - (self.width as int)
                && (self.height as int) * (self.width as int) <= 0x1000_0000
                && 0 <= (y as int) * (self.width as int)) by (nonlinear_arith)
                requires
                    0 <= (y as int) <= (self.height - 1) as int,
                    0 <= (x as int) <= (self.width - 1) as int,
                    1 <= self.width <= 0x4000,
                    1 <= self.height <= 0x4000;
            assert((self.height as int) * (self.width as int)
                == (self.width as int) * (self.height as int)) by (nonlinear_arith);
        }
        let idx: usize = y * self.width + x;
        self.data[idx]
    }
}

/// The scaled UV products stay within the floor-division helper's range.
proof fn lemma_uv_product(c: int, dim: int)
    requires
        -(2 * FX_LIM as int) <= c <= 2 * FX_LIM as int,
        0 <= dim < 0x4000,
    ensures
        -0x4000_0000_0000_0000 <= c * dim <= 0x4000_0000_0000_0000,
        -0x4000_0000_0000_0000 <= divf(c * dim + 32768, ONE as int) <= 0x4000_0000_0000_0000,
{
    assert(-0x4000_0000_0000_0000 + 32768 <= c * dim && c * dim <= 0x4000_0000_0000_0000
        - 65536) by (nonlinear_arith)
        requires -0x100_0000_0000 <= c <= 0x100_0000_0000, 0 <= dim < 0x4000;
    crate::fixed::lemma_divf_bound(c * dim + 32768, ONE as int);
}

/// The texture store: decoded images addressable by the integer id they
/// were assigned at load time, sequentially from 0.
pub struct TextureManager {
    pub textures: Vec<Texture>,
}

impl TextureManager {
    /// Every stored texture is well-formed.
    pub open spec fn wf(self) -> bool {
        forall|i: int| 0 <= i < self.textures@.len() ==> (#[trigger] self.textures@[i]).wf()
    }

    /// An empty store.
    pub fn new() -> (tm: TextureManager)
        ensures
            tm.textures@.len() == 0,
            tm.wf(),
    {
        TextureManager { textures: Vec::new() }
    }

    /// Stores a decoded texture and returns its id: the number of textures
    /// loaded before it. The store only ever grows.
    pub fn load_texture(&mut self, texture: Texture) -> (id: usize)
        requires
            old(self).wf(),
            texture.wf(),
            old(self).textures@.len() < usize::MAX,
        ensures
            id == old(self).textures@.len(),
            final(self).textures@ == old(self).textures@.push(texture),
            final(self).wf(),
    {
        let id: usize = self.textures.len();
        self.textures.push(texture);
        id
    }

    /// Looks a texture up by id; an unknown id yields `None`, never a
    /// failure.
    pub fn get_texture(&self, id: usize) -> (t: Option<&Texture>)
        ensures
            id < self.textures@.len() ==> t == Some(&self.textures@[id as int]),
            id >= self.textures@.len() ==> t.is_none(),
    {
        if id < self.textures.len() {
            Some(&self.textures[id])
        } else {
            None
        }
    }
}

} // verus!
