//! The pixel buffer a frame is rendered into: a row-major color grid with
//! a background color and a current drawing color. Presenting the buffer
//! on screen is the caller's concern.

use vstd::prelude::*;
use crate::material::Color;

verus! {

/// Largest accepted framebuffer edge (16384 pixels).
pub const FB_DIM_LIM: usize = 0x4000;

/// A width×height pixel grid, row-major with the origin at the top left.
pub struct Framebuffer {
    pub width: usize,
    pub height: usize,
    pub color_buffer: Vec<Color>,
    pub background_color: Color,
    pub current_color: Color,
}

impl Framebuffer {
    /// In-range dimensions and exactly one buffer cell per pixel.
    pub open spec fn wf(self) -> bool {
        &&& self.width <= FB_DIM_LIM
        &&& self.height <= FB_DIM_LIM
        &&& self.color_buffer@.len() == self.width * self.height
    }

    /// A buffer of the given size, every pixel set to the background
    /// color, drawing color starting at opaque white.
    pub fn new(width: usize, height: usize, background_color: Color) -> (fb: Framebuffer)
        requires
            width <= FB_DIM_LIM,
            height <= FB_DIM_LIM,
        ensures
            fb.width == width,
            fb.height == height,
            fb.background_color == background_color,
            fb.color_buffer@.len() == width * height,
            forall|i: int| 0 <= i < fb.color_buffer@.len()
                ==> fb.color_buffer@[i] == background_color,
            fb.current_color == (Color { r: 255u8, g: 255u8, b: 255u8, a: 255u8 }),
            fb.wf(),
    {
        proof {
            assert((width as int) * (height as int) <= 0x1000_0000) by (nonlinear_arith)
                requires width <= 0x4000, height <= 0x4000;
        }
        let size: usize = width * height;
        let mut color_buffer: Vec<Color> = Vec::new();
        let mut i: usize = 0;
        while i < size
            invariant
                i <= size,
                color_buffer@.len() == i,
                forall|j: int| 0 <= j < i ==> color_buffer@[j] == background_color,
            decreases size - i,
        {
            color_buffer.push(background_color);
            i = i + 1;
        }
        Framebuffer {
            width,
            height,
            color_buffer,
            background_color,
            current_color: Color { r: 255, g: 255, b: 255, a: 255 },
        }
    }

    /// Fills every pixel with the background color.
    pub fn clear(&mut self)
        requires
            old(self).wf(),
        ensures
            final(self).width == old(self).width,
            final(self).height == old(self).height,
            final(self).background_color == old(self).background_color,
            final(self).current_color == old(self).current_color,
            final(self).color_buffer@.len() == old(self).color_buffer@.len(),
            forall|i: int| 0 <= i < final(self).color_buffer@.len()
                ==> final(self).color_buffer@[i] == old(self).background_color,
            final(self).wf(),
    {
        let len: usize = self.color_buffer.len();
        let mut i: usize = 0;
        while i < len
            invariant
                i <= len,
                self.color_buffer@.len() == len,
                self.width == old(self).width,
                self.height == old(self).height,
                self.background_color == old(self).background_color,
                self.current_color == old(self).current_color,
                forall|j: int| 0 <= j < i
                    ==> self.color_buffer@[j] == old(self).background_color,
            decreases len - i,
        {
            let bg: Color = self.background_color;
            self.color_buffer.set(i, bg);
            i = i + 1;
        }
    }

    /// Writes the current drawing color at `(x, y)`; coordinates outside
    /// the grid are ignored.
    pub fn set_pixel(&mut self, x: u32, y: u32)
        requires
            old(self).wf(),
        ensures
            final(self).width == old(self).width,
            final(self).height == old(self).height,
            final(self).background_color == old(self).background_color,
            final(self).current_color == old(self).current_color,
            final(self).wf(),
            (x as int) < old(self).width && (y as int) < old(self).height
                ==> final(self).color_buffer@ == old(self).color_buffer@.update(
                    (y as int) * old(self).width + (x as int), old(self).current_color),
            !((x as int) < old(self).width && (y as int) < old(self).height)
                ==> final(self).color_buffer@ == old(self).color_buffer@,
    {
        let xx: usize = x as usize;
        let yy: usize = y as usize;
        if xx < self.width && yy < self.height {
            proof {
                assert((yy as int) * (self.width as int) + (xx as int)
                    < (self.width as int) * (self.height as int)
                    && (self.width as int) * (self.height as int) <= 0x1000_0000
                    && 0 <= (yy as int) * (self.width as int)) by (nonlinear_arith)
                    requires
                        (xx as int) < self.width as int,
                        (yy as int) < self.height as int,
                        0 <= xx as int,
                        0 <= yy as int,
                        self.width <= 0x4000,
                        self.height <= 0x4000;
            }
            let index: usize = yy * self.width + xx;
            let c: Color = self.current_color;
            self.color_buffer.set(index, c);
        }
    }

    /// Replaces the background color used by `clear` and misses.
    pub fn set_background_color(&mut self, color: Color)
        ensures
            *final(self) == (Framebuffer { background_color: color, ..*old(self) }),
    {
        self.background_color = color;
    }

    /// Replaces the color the next `set_pixel` calls will write.
    pub fn set_current_color(&mut self, color: Color)
        ensures
            final(self).width == old(self).width,
            final(self).height == old(self).height,
            final(self).background_color == old(self).background_color,
            final(self).color_buffer@ == old(self).color_buffer@,
            final(self).current_color == color,
    {
        self.current_color = color;
    }
}

} // verus!
