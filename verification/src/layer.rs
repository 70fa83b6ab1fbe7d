//! A per-object rectangular sub-buffer of tri-state pixels that knows how to
//! blend itself onto a full-resolution destination buffer.

use vstd::prelude::*;

use crate::pixel::{blend_pixel, blend_pixel_spec, Pixel};

verus! {

/// Upper bound on every pixel dimension and position the renderer handles,
/// chosen so that products of two dimensions and sums of a position and a
/// dimension always fit in `usize`.
pub const MAX_DIM: usize = 0xFFFF;

/// A rectangular grid of pixels placed on the screen. `pos_x_start` and
/// `pos_y_start` are the immutable anchors set at construction; `pos_x` and
/// `pos_y` may drift frame to frame. The grid itself is `pos_h` rows of
/// `pos_w` pixels and is never resized.
pub struct Layer {
    /// the original x-position of this layer on the screen in pixels
    pub pos_x_start: usize,
    /// the original y-position of this layer on the screen in pixels
    pub pos_y_start: usize,
    /// the current x-position of this layer on the screen in pixels
    pub pos_x: usize,
    /// the current y-position of this layer on the screen in pixels
    pub pos_y: usize,
    /// the width of this layer on the screen in pixels
    pub pos_w: usize,
    /// the height of this layer on the screen in pixels
    pub pos_h: usize,
    /// the width of the entire screen in pixels
    pub width: usize,
    /// the height of the entire screen in pixels
    pub height: usize,
    pub pixel_data: Vec<Vec<Pixel>>,
}

impl Layer {
    /// The grid has exactly `pos_h` rows of `pos_w` pixels each, and every
    /// geometric field is small enough for index arithmetic in `usize`.
    pub open spec fn wf(self) -> bool {
        &&& self.pixel_data@.len() == self.pos_h
        &&& (forall|y: int| 0 <= y < self.pos_h ==> self.pixel_data@[y]@.len() == self.pos_w)
        &&& self.pos_x_start <= MAX_DIM
        &&& self.pos_y_start <= MAX_DIM
        &&& self.pos_x <= MAX_DIM + 128
        &&& self.pos_y <= MAX_DIM + 128
        &&& self.pos_w <= MAX_DIM
        &&& self.pos_h <= MAX_DIM
        &&& self.width <= MAX_DIM
        &&& self.height <= MAX_DIM
    }

    /// Whether the screen position `(px, py)` lies under this layer at its
    /// current drift offset.
    pub open spec fn covers(self, px: int, py: int) -> bool {
        &&& self.pos_x <= px < self.pos_x + self.pos_w
        &&& self.pos_y <= py < self.pos_y + self.pos_h
    }

    /// The layer pixel that sits over screen position `(px, py)`.
    pub open spec fn pixel_at(self, px: int, py: int) -> Pixel {
        self.pixel_data@[py - self.pos_y]@[px - self.pos_x]
    }

    /// Every pixel of the grid is `Transparent`.
    pub open spec fn all_transparent(self) -> bool {
        forall|y: int, x: int|
            0 <= y < self.pos_h && 0 <= x < self.pos_w
                ==> self.pixel_data@[y]@[x] == Pixel::Transparent
    }
}

/// The destination buffer after a layer is blended onto it: every covered
/// position is blended through `blend_pixel_spec`, every other position keeps
/// its previous value. Positions pushed past the screen edge by drift are
/// clipped, which the index form expresses by itself: an in-buffer index never
/// reaches past `w` columns or `h` rows.
pub open spec fn layer_blended(l: Layer, buf: Seq<(u8, u8, u8)>, w: int) -> Seq<(u8, u8, u8)> {
    Seq::new(
        buf.len(),
        |i: int|
            {
                let px = i % w;
                let py = i / w;
                if l.covers(px, py) {
                    blend_pixel_spec(l.pixel_at(px, py), buf[i])
                } else {
                    buf[i]
                }
            },
    )
}

impl Layer {
    /// Builds a layer of `h` rows by `w` columns of transparent pixels,
    /// anchored at `(x, y)` on a `width` by `height` screen.
    pub fn new(x: usize, y: usize, w: usize, h: usize, width: usize, height: usize) -> (l: Layer)
        requires
            x <= MAX_DIM,
            y <= MAX_DIM,
            w <= MAX_DIM,
            h <= MAX_DIM,
            width <= MAX_DIM,
            height <= MAX_DIM,
        ensures
            l.wf(),
            l.all_transparent(),
            l.pos_x_start == x,
            l.pos_y_start == y,
            l.pos_x == x,
            l.pos_y == y,
            l.pos_w == w,
            l.pos_h == h,
            l.width == width,
            l.height == height,
    {
        let mut pixel_data: Vec<Vec<Pixel>> = Vec::new();
        let mut row: usize = 0;
        while row < h
            invariant
                row <= h,
                pixel_data@.len() == row,
                forall|ry: int| 0 <= ry < row ==> pixel_data@[ry]@.len() == w,
                forall|ry: int, rx: int|
                    0 <= ry < row && 0 <= rx < w
                        ==> pixel_data@[ry]@[rx] == Pixel::Transparent,
            decreases h - row,
        {
            let mut line: Vec<Pixel> = Vec::new();
            let mut col: usize = 0;
            while col < w
                invariant
                    col <= w,
                    line@.len() == col,
                    forall|rx: int| 0 <= rx < col ==> line@[rx] == Pixel::Transparent,
                decreases w - col,
            {
                line.push(Pixel::Transparent);
                col += 1;
            }
            pixel_data.push(line);
            row += 1;
        }
        Layer {
            pos_x_start: x,
            pos_y_start: y,
            pos_x: x,
            pos_y: y,
            pos_w: w,
            pos_h: h,
            width,
            height,
            pixel_data,
        }
    }

    /// Blends this layer onto a destination buffer of `width * height`
    /// pixels, clipping anything the drift offset pushed past the right or
    /// bottom edge.
    pub fn draw_onto(&self, image_bytes: &mut Vec<(u8, u8, u8)>, width: usize, height: usize)
        requires
            self.wf(),
            width <= MAX_DIM,
            height <= MAX_DIM,
            old(image_bytes)@.len() == width * height,
        ensures
            final(image_bytes)@ == layer_blended(*self, old(image_bytes)@, width as int),
    {
        let ghost buf0 = image_bytes@;
        let ghost w = width as int;
        let n = image_bytes.len();
        let mut ly: usize = 0;
        while ly < self.pos_h
            invariant
                self.wf(),
                ly <= self.pos_h,
                width <= MAX_DIM,
                height <= MAX_DIM,
                buf0.len() == width * height,
                image_bytes@.len() == buf0.len(),
                n == buf0.len(),
                w == width as int,
                forall|i: int|
                    0 <= i < buf0.len() ==> image_bytes@[i] == (if self.covers(i % w, i / w)
                        && i / w < self.pos_y + ly {
                        blend_pixel_spec(self.pixel_at(i % w, i / w), buf0[i])
                    } else {
                        buf0[i]
                    }),
            decreases self.pos_h - ly,
        {
            let ty = self.pos_y + ly;
            if ty < height {
                let mut lx: usize = 0;
                while lx < self.pos_w
                    invariant
                        self.wf(),
                        ly < self.pos_h,
                        lx <= self.pos_w,
                        width <= MAX_DIM,
                        height <= MAX_DIM,
                        ty == self.pos_y + ly,
                        ty < height,
                        buf0.len() == width * height,
                        image_bytes@.len() == buf0.len(),
                        n == buf0.len(),
                        w == width as int,
                        forall|i: int|
                            0 <= i < buf0.len() ==> image_bytes@[i] == (if self.covers(
                                i % w,
                                i / w,
                            ) && (i / w < self.pos_y + ly || (i / w == ty && i % w
                                < self.pos_x + lx)) {
                                blend_pixel_spec(self.pixel_at(i % w, i / w), buf0[i])
                            } else {
                                buf0[i]
                            }),
                    decreases self.pos_w - lx,
                {
                    let tx = self.pos_x + lx;
                    if tx < width {
                        proof {
                            assert(ty * width + tx < width * height) by (nonlinear_arith)
                                requires
                                    ty < height && tx < width && 0 < width,
                            ;
                        }
                        let idx = ty * width + tx;
                        let ghost pre = image_bytes@;
                        let line: &Vec<Pixel> = &self.pixel_data[ly];
                        let p: Pixel = line[lx];
                        let cur = image_bytes[idx];
                        let nb = blend_pixel(&p, cur);
                        image_bytes[idx] = nb;
                        proof {
                            vstd::arithmetic::div_mod::lemma_fundamental_div_mod_converse(
                                idx as int,
                                w,
                                ty as int,
                                tx as int,
                            );
                            assert(idx as int % w == tx as int && idx as int / w == ty as int);
                            assert forall|i: int| 0 <= i < buf0.len() implies image_bytes@[i] == (
                            if self.covers(i % w, i / w) && (i / w < self.pos_y + ly || (i / w == ty
                                && i % w < self.pos_x + lx + 1)) {
                                blend_pixel_spec(self.pixel_at(i % w, i / w), buf0[i])
                            } else {
                                buf0[i]
                            }) by {
                                if i != idx {
                                    assert(image_bytes@[i] == pre[i]);
                                    if i / w == ty as int && i % w == tx as int {
                                        vstd::arithmetic::div_mod::lemma_fundamental_div_mod(i, w);
                                        assert(i == w * (ty as int) + tx);
                                        assert(w * (ty as int) == (ty as int) * (width as int))
                                            by (nonlinear_arith)
                                            requires
                                                w == width as int,
                                        ;
                                        assert(i == ty * width + tx);
                                    }
                                }
                            }
                        }
                    } else {
                        proof {
                            assert forall|i: int| 0 <= i < buf0.len() implies !(#[trigger] (i % w)
                                == tx && i / w == ty) by {
                                vstd::arithmetic::div_mod::lemma_mod_bound(i, w);
                            }
                        }
                    }
                    lx += 1;
                }
            } else {
                proof {
                    assert forall|i: int| 0 <= i < buf0.len() implies #[trigger] (i / w) < ty as int by {
                        assert(i / (width as int) < height) by (nonlinear_arith)
                            requires
                                0 <= i && i < width * height,
                        ;
                    }
                }
            }
            ly += 1;
        }
        proof {
            assert(image_bytes@ =~= layer_blended(*self, buf0, w));
        }
    }
}

/// Blending a layer whose pixels are all `Transparent` onto a buffer leaves
/// the buffer unchanged.
pub proof fn lemma_transparent_layer_blend_identity(l: Layer, buf: Seq<(u8, u8, u8)>, w: int)
    requires
        l.wf(),
        l.all_transparent(),
    ensures
        layer_blended(l, buf, w) == buf,
{
    let out = layer_blended(l, buf, w);
    assert forall|i: int| 0 <= i < buf.len() implies out[i] == buf[i] by {
        let px = i % w;
        let py = i / w;
        if l.covers(px, py) {
            assert(l.pixel_at(px, py) == Pixel::Transparent);
        }
    }
    assert(out =~= buf);
}

} // verus!
