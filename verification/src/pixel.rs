//! Tri-state layer pixels and how one blends over a destination color.

use vstd::prelude::*;

verus! {

/// One cell of a layer's grid. Color channels are 8-bit; the alpha of a
/// semi-transparent pixel is an 8-bit fraction where 255 stands for fully
/// opaque and 0 for fully transparent.
#[derive(Clone, Copy, Debug, PartialEq, Eq, Structural)]
pub enum Pixel {
    Transparent,
    Opaque { r: u8, g: u8, b: u8 },
    SemiTransparent { r: u8, g: u8, b: u8, a: u8 },
}

/// An RGBA color value.
#[derive(Clone, Copy, Debug, PartialEq, Eq, Structural)]
pub struct Color {
    pub r: u8,
    pub g: u8,
    pub b: u8,
    pub a: u8,
}

/// One channel of the semi-transparent mix `(1 - a) * dest + a * src`,
/// with `a` scaled by 255 and the result rounded to the nearest integer
/// (ties toward the destination).
pub open spec fn mix_channel_spec(dest: u8, src: u8, a: u8) -> int {
    ((255 - a) * dest + a * src + 127) / 255
}

/// What blending one layer pixel over a destination color produces:
/// transparent keeps the destination, opaque replaces it, semi-transparent
/// mixes each channel by the pixel's alpha.
pub open spec fn blend_pixel_spec(p: Pixel, dest: (u8, u8, u8)) -> (u8, u8, u8) {
    match p {
        Pixel::Transparent => dest,
        Pixel::Opaque { r, g, b } => (r, g, b),
        Pixel::SemiTransparent { r, g, b, a } => (
            mix_channel_spec(dest.0, r, a) as u8,
            mix_channel_spec(dest.1, g, a) as u8,
            mix_channel_spec(dest.2, b, a) as u8,
        ),
    }
}

proof fn lemma_mix_channel_fits(dest: u8, src: u8, a: u8)
    ensures
        0 <= mix_channel_spec(dest, src, a) <= 255,
{
    assert(0 <= ((255 - a) * dest + a * src + 127) / 255 <= 255) by (nonlinear_arith)
        requires
            dest <= 255 && src <= 255 && a <= 255,
    ;
}

/// Blends one layer pixel over a destination color.
pub fn blend_pixel(p: &Pixel, dest: (u8, u8, u8)) -> (out: (u8, u8, u8))
    ensures
        out == blend_pixel_spec(*p, dest),
{
    match *p {
        Pixel::Transparent => dest,
        Pixel::Opaque { r, g, b } => (r, g, b),
        Pixel::SemiTransparent { r, g, b, a } => {
            proof {
                lemma_mix_channel_fits(dest.0, r, a);
                lemma_mix_channel_fits(dest.1, g, a);
                lemma_mix_channel_fits(dest.2, b, a);
            }
            let na: u32 = 255 - a as u32;
            (
                ((na * dest.0 as u32 + a as u32 * r as u32 + 127) / 255) as u8,
                ((na * dest.1 as u32 + a as u32 * g as u32 + 127) / 255) as u8,
                ((na * dest.2 as u32 + a as u32 * b as u32 + 127) / 255) as u8,
            )
        },
    }
}

} // verus!
