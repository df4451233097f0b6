//! A buffer of RGBA pixels, row by row, four bytes a pixel.

use vstd::prelude::*;
use super::color::Color;

verus! {

/// An image of `width` by `height` pixels; pixel `(x, y)` is the four bytes
/// from `(y * width + x) * 4` on: red, green, blue, alpha.
#[derive(Clone, Debug, PartialEq)]
pub struct RgbaBuffer {
    pub width: u32,
    pub height: u32,
    pub pixels: Vec<u8>,
}

/// Where the bytes of pixel `(x, y)` start.
pub open spec fn pixel_index(width: u32, x: int, y: int) -> int {
    (y * width + x) * 4
}

/// The pixel at `(x, y)` lies in the buffer's bytes.
pub open spec fn pixel_in_buffer(buffer: RgbaBuffer, x: int, y: int) -> bool {
    0 <= x && 0 <= y && pixel_index(buffer.width, x, y) + 3 < buffer.pixels@.len()
}

/// The alpha of `src_alpha` drawn over `dst_alpha` ("source over").
pub open spec fn over_alpha(src_alpha: int, dst_alpha: int) -> int {
    src_alpha + dst_alpha * (255 - src_alpha) / 255
}

/// One color channel of `src` drawn over `dst`, given the alphas; the result is
/// kept to its low eight bits.
pub open spec fn over_channel(src: u8, dst: u8, src_alpha: int, dst_alpha: int, out_alpha: int) -> u8 {
    (((src * src_alpha * 255 + dst * dst_alpha * (255 - src_alpha)) / (out_alpha * 255)) % 256) as u8
}

/// Drawing at `(x, y)` changes nothing: the point is off the image (the size
/// read as `i32`) or the color is fully transparent.
pub open spec fn blend_skipped(buffer: RgbaBuffer, x: i32, y: i32, color: Color) -> bool {
    x < 0 || y < 0 || x >= (buffer.width as i32) || y >= (buffer.height as i32) || color.a == 0
}

/// The bytes after drawing `color` over the pixel at `(x, y)`.
pub open spec fn blended_pixels(buffer: RgbaBuffer, x: i32, y: i32, color: Color) -> Seq<u8> {
    let i = pixel_index(buffer.width, x as int, y as int);
    let p = buffer.pixels@;
    let sa = color.a as int;
    let da = p[i + 3] as int;
    let oa = over_alpha(sa, da);
    p.update(i, over_channel(color.r, p[i], sa, da, oa)).update(
        i + 1,
        over_channel(color.g, p[i + 1], sa, da, oa),
    ).update(i + 2, over_channel(color.b, p[i + 2], sa, da, oa)).update(i + 3, oa as u8)
}

fn blend_channel(src: u8, dst: u8, src_alpha: u32, dst_alpha: u32, out_alpha: u32) -> (r: u8)
    requires
        src_alpha <= 255,
        dst_alpha <= 255,
        0 < out_alpha <= 255,
    ensures
        r == over_channel(src, dst, src_alpha as int, dst_alpha as int, out_alpha as int),
{
    let s = src as u32;
    let d = dst as u32;
    assert(s * src_alpha <= 255 * 255) by (nonlinear_arith)
        requires
            s <= 255,
            src_alpha <= 255,
    ;
    assert(s * src_alpha * 255 <= 255 * 255 * 255) by (nonlinear_arith)
        requires
            s <= 255,
            src_alpha <= 255,
    ;
    assert(d * dst_alpha <= 255 * 255) by (nonlinear_arith)
        requires
            d <= 255,
            dst_alpha <= 255,
    ;
    assert(d * dst_alpha * (255 - src_alpha) <= 255 * 255 * 255) by (nonlinear_arith)
        requires
            d <= 255,
            dst_alpha <= 255,
            src_alpha <= 255,
    ;
    let blended = (s * src_alpha * 255 + d * dst_alpha * (255 - src_alpha)) / (out_alpha * 255);
    assert((blended as u8) == blended % 256) by (bit_vector);
    blended as u8
}

impl RgbaBuffer {
    /// A buffer of the given size with every byte zero (transparent black).
    pub fn new(width: u32, height: u32) -> (b: RgbaBuffer)
        requires
            width * height * 4 <= usize::MAX,
        ensures
            b.width == width,
            b.height == height,
            b.pixels@.len() == width * height * 4,
            forall|i: int| 0 <= i < b.pixels@.len() ==> b.pixels@[i] == 0,
    {
        assert(width * height <= width * height * 4) by (nonlinear_arith);
        let n = width as usize * height as usize * 4;
        RgbaBuffer { width, height, pixels: vec![0u8; n] }
    }

    /// The color of the pixel at `(x, y)`.
    pub fn pixel(&self, x: u32, y: u32) -> (c: Color)
        requires
            pixel_in_buffer(*self, x as int, y as int),
        ensures
            c == ({
                let i = pixel_index(self.width, x as int, y as int);
                Color {
                    r: self.pixels@[i],
                    g: self.pixels@[i + 1],
                    b: self.pixels@[i + 2],
                    a: self.pixels@[i + 3],
                }
            }),
    {
        let len = self.pixels.len();
        assert(y * self.width + x <= (y * self.width + x) * 4 + 3);
        let index = (y as usize * self.width as usize + x as usize) * 4;
        Color::rgba(
            self.pixels[index],
            self.pixels[index + 1],
            self.pixels[index + 2],
            self.pixels[index + 3],
        )
    }

    /// Draws `color` over the pixel at `(x, y)` ("source over"); points off the
    /// image and fully transparent colors leave the buffer as it is.
    pub fn blend_pixel(&mut self, x: i32, y: i32, color: Color)
        requires
            blend_skipped(*old(self), x, y, color) || pixel_in_buffer(*old(self), x as int, y as int),
        ensures
            final(self).width == old(self).width,
            final(self).height == old(self).height,
            blend_skipped(*old(self), x, y, color) ==> final(self).pixels@ == old(self).pixels@,
            !blend_skipped(*old(self), x, y, color) ==> final(self).pixels@ == blended_pixels(
                *old(self),
                x,
                y,
                color,
            ),
    {
        if x < 0 || y < 0 || x >= self.width as i32 || y >= self.height as i32 || color.a == 0 {
            return;
        }
        let len = self.pixels.len();
        assert(y * self.width + x <= (y * self.width + x) * 4 + 3);
        let index = (y as usize * self.width as usize + x as usize) * 4;
        let src_alpha = color.a as u32;
        let dst_alpha = self.pixels[index + 3] as u32;
        assert(dst_alpha * (255 - src_alpha) / 255 <= 255 - src_alpha) by (nonlinear_arith)
            requires
                dst_alpha <= 255,
                src_alpha <= 255,
        ;
        let out_alpha = src_alpha + dst_alpha * (255 - src_alpha) / 255;
        if out_alpha == 0 {
            return;
        }
        let r = blend_channel(color.r, self.pixels[index], src_alpha, dst_alpha, out_alpha);
        self.pixels.set(index, r);
        let g = blend_channel(color.g, self.pixels[index + 1], src_alpha, dst_alpha, out_alpha);
        self.pixels.set(index + 1, g);
        let b = blend_channel(color.b, self.pixels[index + 2], src_alpha, dst_alpha, out_alpha);
        self.pixels.set(index + 2, b);
        self.pixels.set(index + 3, out_alpha as u8);
    }
}

/// Drawing a fully opaque color over a pixel makes the pixel that color.
pub proof fn opaque_blend_replaces(buffer: RgbaBuffer, x: i32, y: i32, color: Color)
    requires
        !blend_skipped(buffer, x, y, color),
        pixel_in_buffer(buffer, x as int, y as int),
        color.a == 255,
    ensures
        ({
            let i = pixel_index(buffer.width, x as int, y as int);
            let p = blended_pixels(buffer, x, y, color);
            p[i] == color.r && p[i + 1] == color.g && p[i + 2] == color.b && p[i + 3] == 255
        }),
{
    let i = pixel_index(buffer.width, x as int, y as int);
    let da = buffer.pixels@[i + 3] as int;
    assert(over_alpha(255, da) == 255);
    lemma_opaque_channel(color.r, buffer.pixels@[i], da);
    lemma_opaque_channel(color.g, buffer.pixels@[i + 1], da);
    lemma_opaque_channel(color.b, buffer.pixels@[i + 2], da);
}

proof fn lemma_opaque_channel(src: u8, dst: u8, da: int)
    requires
        0 <= da <= 255,
    ensures
        over_channel(src, dst, 255, da, 255) == src,
{
    let num: int = src as int * 255 * 255 + dst as int * da * (255 - 255);
    assert(num == src as int * 65025) by (nonlinear_arith)
        requires
            num == src as int * 255 * 255 + dst as int * da * (255 - 255),
    ;
    assert(num / 65025int == src as int) by (nonlinear_arith)
        requires
            num == src as int * 65025,
    ;
}

/// Drawing over a pixel never lowers its alpha, nor leaves it below the
/// alpha of the color drawn.
pub proof fn blend_keeps_alpha(buffer: RgbaBuffer, x: i32, y: i32, color: Color)
    requires
        !blend_skipped(buffer, x, y, color),
        pixel_in_buffer(buffer, x as int, y as int),
    ensures
        ({
            let i = pixel_index(buffer.width, x as int, y as int);
            let p = blended_pixels(buffer, x, y, color);
            p[i + 3] >= buffer.pixels@[i + 3] && p[i + 3] >= color.a
        }),
{
    let i = pixel_index(buffer.width, x as int, y as int);
    let sa = color.a as int;
    let da = buffer.pixels@[i + 3] as int;
    assert(sa + da * (255 - sa) / 255 >= da) by (nonlinear_arith)
        requires
            0 <= sa <= 255,
            0 <= da <= 255,
    ;
    assert(da * (255 - sa) / 255 <= 255 - sa) by (nonlinear_arith)
        requires
            0 <= sa <= 255,
            0 <= da <= 255,
    ;
}

/// Drawing over one pixel leaves the bytes of every other pixel as they were.
pub proof fn blend_touches_one_pixel(buffer: RgbaBuffer, x: i32, y: i32, color: Color, j: int)
    requires
        !blend_skipped(buffer, x, y, color),
        pixel_in_buffer(buffer, x as int, y as int),
        0 <= j < buffer.pixels@.len(),
        j < pixel_index(buffer.width, x as int, y as int) || j >= pixel_index(buffer.width, x as int, y as int) + 4,
    ensures
        blended_pixels(buffer, x, y, color)[j] == buffer.pixels@[j],
        blended_pixels(buffer, x, y, color).len() == buffer.pixels@.len(),
{
}

} // verus!
