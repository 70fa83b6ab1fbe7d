//! Scene objects: a closed set of variants, each with a one-time rasterization
//! into its layer and a per-frame update rule.

use vstd::prelude::*;

use crate::arith::lemma_div_below;
use crate::error::RenderError;
use crate::layer::{Layer, MAX_DIM};
use crate::pixel::Pixel;

verus! {

/// What an object draws: a flat rectangle of one pixel value, or a decoded
/// RGBA image resampled into the object's layer.
pub enum WorldObjectData {
    Rectangle { color: Pixel },
    Image { rgba: Vec<u8>, width: usize, height: usize },
}

impl WorldObjectData {
    /// An image source must have nonzero, bounded dimensions; a rectangle has
    /// no dimensions of its own.
    pub open spec fn dims_ok(self) -> bool {
        match self {
            WorldObjectData::Rectangle { .. } => true,
            WorldObjectData::Image { rgba, width, height } => 1 <= width <= MAX_DIM && 1 <= height
                <= MAX_DIM,
        }
    }

    /// An image byte buffer holds exactly four bytes per source pixel.
    pub open spec fn bytes_ok(self) -> bool {
        match self {
            WorldObjectData::Rectangle { .. } => true,
            WorldObjectData::Image { rgba, width, height } => rgba@.len() == 4 * width * height,
        }
    }

    pub open spec fn wf(self) -> bool {
        self.dims_ok() && self.bytes_ok()
    }
}

/// The mutable part of an object: the screen dimensions it was built against,
/// its variant data and its layer.
#[allow(non_camel_case_types)]
pub struct WorldObject_State {
    pub width: usize,
    pub height: usize,
    pub data: WorldObjectData,
    pub layer: Layer,
}

impl WorldObject_State {
    pub open spec fn wf(self) -> bool {
        self.layer.wf() && self.data.wf()
    }
}

/// A scene object. Its behavior is fixed by the variant of its `data`:
/// rasterization and the per-frame update dispatch on it.
pub struct WorldObject {
    pub state: WorldObject_State,
}

impl WorldObject {
    pub open spec fn wf(self) -> bool {
        self.state.wf()
    }
}

/// The nearest-neighbor sample of the source image for layer cell `(x, y)`:
/// source row `y * src_h / layer_h`, source column `x * src_w / layer_w`,
/// read as an opaque pixel with the alpha byte discarded.
pub open spec fn image_sample(
    rgba: Seq<u8>,
    src_w: int,
    src_h: int,
    layer_w: int,
    layer_h: int,
    x: int,
    y: int,
) -> Pixel {
    let row = y * src_h / layer_h;
    let col = x * src_w / layer_w;
    let idx = 4 * (row * src_w + col);
    Pixel::Opaque { r: rgba[idx], g: rgba[idx + 1], b: rgba[idx + 2] }
}

/// What one-time rasterization writes at layer cell `(x, y)`: the flat color
/// for a rectangle, the nearest-neighbor image sample for an image.
pub open spec fn rasterized_pixel(
    data: WorldObjectData,
    layer_w: int,
    layer_h: int,
    x: int,
    y: int,
) -> Pixel {
    match data {
        WorldObjectData::Rectangle { color } => color,
        WorldObjectData::Image { rgba, width, height } => image_sample(
            rgba@,
            width as int,
            height as int,
            layer_w,
            layer_h,
            x,
            y,
        ),
    }
}

/// The state after one-time rasterization: everything but the pixel grid is
/// kept, and the grid holds `rasterized_pixel` at every cell.
pub open spec fn rasterized_from(nst: WorldObject_State, ost: WorldObject_State) -> bool {
    &&& nst.width == ost.width
    &&& nst.height == ost.height
    &&& nst.data == ost.data
    &&& nst.layer.pos_x_start == ost.layer.pos_x_start
    &&& nst.layer.pos_y_start == ost.layer.pos_y_start
    &&& nst.layer.pos_x == ost.layer.pos_x
    &&& nst.layer.pos_y == ost.layer.pos_y
    &&& nst.layer.pos_w == ost.layer.pos_w
    &&& nst.layer.pos_h == ost.layer.pos_h
    &&& nst.layer.width == ost.layer.width
    &&& nst.layer.height == ost.layer.height
    &&& nst.layer.pixel_data@.len() == ost.layer.pos_h
    &&& (forall|y: int|
        0 <= y < ost.layer.pos_h ==> nst.layer.pixel_data@[y]@.len() == ost.layer.pos_w)
    &&& (forall|y: int, x: int|
        0 <= y < ost.layer.pos_h && 0 <= x < ost.layer.pos_w
            ==> nst.layer.pixel_data@[y]@[x] == rasterized_pixel(
            ost.data,
            ost.layer.pos_w as int,
            ost.layer.pos_h as int,
            x,
            y,
        ))
}

/// How far the per-frame update drifts an image layer from its anchor: a
/// horizontal offset cycling through a 100-pixel band, one pixel per 10 ms.
pub open spec fn drift_offset(elapsed_ms: u64) -> int {
    (elapsed_ms as int) / 10 % 100
}

/// The state after the per-frame update: a rectangle is untouched; an image
/// keeps everything but `pos_x`, which is re-anchored to
/// `pos_x_start + drift_offset(elapsed_ms)`.
pub open spec fn drifted_from(
    nst: WorldObject_State,
    ost: WorldObject_State,
    elapsed_ms: u64,
) -> bool {
    match ost.data {
        WorldObjectData::Rectangle { .. } => nst == ost,
        WorldObjectData::Image { .. } => {
            &&& nst.width == ost.width
            &&& nst.height == ost.height
            &&& nst.data == ost.data
            &&& nst.layer == (Layer {
                pos_x: (ost.layer.pos_x_start + drift_offset(elapsed_ms)) as usize,
                ..ost.layer
            })
        },
    }
}

/// Whether an object with this geometry can be built at all: every pixel
/// measure within range.
pub open spec fn abs_geometry_ok(
    pos_x: int,
    pos_y: int,
    pos_w: int,
    pos_h: int,
    width: int,
    height: int,
) -> bool {
    &&& pos_x <= MAX_DIM
    &&& pos_y <= MAX_DIM
    &&& pos_w <= MAX_DIM
    &&& pos_h <= MAX_DIM
    &&& width <= MAX_DIM
    &&& height <= MAX_DIM
}

/// What a freshly built object looks like: the given data, a transparent
/// layer anchored at the given position, and the screen dimensions recorded.
pub open spec fn built_abs(
    o: WorldObject,
    data: WorldObjectData,
    pos_x: int,
    pos_y: int,
    pos_w: int,
    pos_h: int,
    width: int,
    height: int,
) -> bool {
    &&& o.wf()
    &&& o.state.width == width
    &&& o.state.height == height
    &&& o.state.data == data
    &&& o.state.layer.pos_x_start == pos_x
    &&& o.state.layer.pos_y_start == pos_y
    &&& o.state.layer.pos_x == pos_x
    &&& o.state.layer.pos_y == pos_y
    &&& o.state.layer.pos_w == pos_w
    &&& o.state.layer.pos_h == pos_h
    &&& o.state.layer.width == width
    &&& o.state.layer.height == height
    &&& o.state.layer.all_transparent()
}

impl WorldObject {
    /// Builds an object whose layer is anchored at `(pos_x, pos_y)` with size
    /// `pos_w` by `pos_h` pixels on a `width` by `height` screen. Geometry
    /// out of range or an empty image axis is `InvalidDimensions`; an image
    /// byte buffer of the wrong length is `ImageDecodeMismatch`.
    pub fn new_abs(
        data_and_type: WorldObjectData,
        pos_x: usize,
        pos_y: usize,
        pos_w: usize,
        pos_h: usize,
        width: usize,
        height: usize,
    ) -> (r: Result<WorldObject, RenderError>)
        ensures
            r is Ok <==> (abs_geometry_ok(
                pos_x as int,
                pos_y as int,
                pos_w as int,
                pos_h as int,
                width as int,
                height as int,
            ) && data_and_type.wf()),
            !(abs_geometry_ok(
                pos_x as int,
                pos_y as int,
                pos_w as int,
                pos_h as int,
                width as int,
                height as int,
            ) && data_and_type.dims_ok()) ==> r == Err::<WorldObject, RenderError>(
                RenderError::InvalidDimensions,
            ),
            (abs_geometry_ok(
                pos_x as int,
                pos_y as int,
                pos_w as int,
                pos_h as int,
                width as int,
                height as int,
            ) && data_and_type.dims_ok() && !data_and_type.bytes_ok()) ==> r == Err::<
                WorldObject,
                RenderError,
            >(RenderError::ImageDecodeMismatch),
            r matches Ok(o) ==> built_abs(
                o,
                data_and_type,
                pos_x as int,
                pos_y as int,
                pos_w as int,
                pos_h as int,
                width as int,
                height as int,
            ),
    {
        if pos_x > MAX_DIM || pos_y > MAX_DIM || pos_w > MAX_DIM || pos_h > MAX_DIM || width
            > MAX_DIM || height > MAX_DIM {
            return Err(RenderError::InvalidDimensions);
        }
        match &data_and_type {
            WorldObjectData::Rectangle { .. } => {},
            WorldObjectData::Image { rgba, width: src_w, height: src_h } => {
                if *src_w == 0 || *src_h == 0 || *src_w > MAX_DIM || *src_h > MAX_DIM {
                    return Err(RenderError::InvalidDimensions);
                }
                let sw = *src_w;
                let sh = *src_h;
                proof {
                    assert(0 <= sw * sh && sw * sh <= MAX_DIM * MAX_DIM && 4 * (sw * sh) == 4 * sw
                        * sh) by (nonlinear_arith)
                        requires
                            1 <= sw <= MAX_DIM && 1 <= sh <= MAX_DIM,
                    ;
                }
                let pixels = sw * sh;
                let rl = rgba.len();
                match pixels.checked_mul(4) {
                    Some(bytes_len) => {
                        if rl != bytes_len {
                            return Err(RenderError::ImageDecodeMismatch);
                        }
                    },
                    None => {
                        return Err(RenderError::ImageDecodeMismatch);
                    },
                }
            },
        }
        let state = WorldObject_State {
            width,
            height,
            data: data_and_type,
            layer: Layer::new(pos_x, pos_y, pos_w, pos_h, width, height),
        };
        Ok(WorldObject { state })
    }

    /// Converts world-relative placement (fractions of the screen, scaled by
    /// 65536) to absolute pixels by rounding, then builds the object as
    /// `new_abs` does.
    pub fn new_rel(
        data_and_type: WorldObjectData,
        pos_x: i64,
        pos_y: i64,
        pos_w: i64,
        pos_h: i64,
        width: usize,
        height: usize,
    ) -> (r: Result<WorldObject, RenderError>)
        requires
            0 <= pos_x <= 65536,
            0 <= pos_y <= 65536,
            0 <= pos_w <= 65536,
            0 <= pos_h <= 65536,
            width <= MAX_DIM,
            height <= MAX_DIM,
        ensures
            r is Ok <==> data_and_type.wf(),
            !data_and_type.dims_ok() ==> r == Err::<WorldObject, RenderError>(
                RenderError::InvalidDimensions,
            ),
            data_and_type.dims_ok() && !data_and_type.bytes_ok() ==> r == Err::<
                WorldObject,
                RenderError,
            >(RenderError::ImageDecodeMismatch),
            r matches Ok(o) ==> built_abs(
                o,
                data_and_type,
                rel_to_abs(pos_x as int, width as int),
                rel_to_abs(pos_y as int, height as int),
                rel_to_abs(pos_w as int, width as int),
                rel_to_abs(pos_h as int, height as int),
                width as int,
                height as int,
            ),
    {
        let ax = rel_to_abs_px(pos_x, width);
        let ay = rel_to_abs_px(pos_y, height);
        let aw = rel_to_abs_px(pos_w, width);
        let ah = rel_to_abs_px(pos_h, height);
        WorldObject::new_abs(data_and_type, ax, ay, aw, ah, width, height)
    }
}

/// A world-relative coordinate (fraction of `dim` scaled by 65536) rounded to
/// the nearest whole pixel.
pub open spec fn rel_to_abs(rel: int, dim: int) -> int {
    (rel * dim + 32768) / 65536
}

/// Rounds a relative placement fraction to absolute pixels.
fn rel_to_abs_px(rel: i64, dim: usize) -> (r: usize)
    requires
        0 <= rel <= 65536,
        dim <= MAX_DIM,
    ensures
        r == rel_to_abs(rel as int, dim as int),
        r <= dim,
{
    proof {
        assert(rel * dim <= 65536 * dim) by (nonlinear_arith)
            requires
                0 <= rel <= 65536 && 0 <= dim,
        ;
        assert(0 <= rel * dim) by (nonlinear_arith)
            requires
                0 <= rel && 0 <= dim,
        ;
        lemma_div_below(rel * dim + 32768, 65536, dim as int + 1);
        vstd::arithmetic::div_mod::lemma_div_pos_is_pos(rel * dim + 32768, 65536);
        assert(65536 * dim + 32768 < (dim + 1) * 65536) by (nonlinear_arith)
            requires
                0 <= dim,
        ;
    }
    (((rel as u64) * (dim as u64) + 32768) / 65536) as usize
}

impl WorldObject {
    /// One-time rasterization: fills the layer grid from the object's data,
    /// a flat fill for a rectangle and a nearest-neighbor resample for an
    /// image.
    pub fn draw_init(&mut self)
        requires
            old(self).wf(),
        ensures
            final(self).wf(),
            rasterized_from(final(self).state, old(self).state),
    {
        let lw = self.state.layer.pos_w;
        let lh = self.state.layer.pos_h;
        let mut grid: Vec<Vec<Pixel>> = Vec::new();
        match &self.state.data {
            WorldObjectData::Rectangle { color } => {
                let c: Pixel = *color;
                let mut y: usize = 0;
                while y < lh
                    invariant
                        y <= lh,
                        grid@.len() == y,
                        forall|ry: int| 0 <= ry < y ==> grid@[ry]@.len() == lw,
                        forall|ry: int, rx: int|
                            0 <= ry < y && 0 <= rx < lw ==> grid@[ry]@[rx] == c,
                    decreases lh - y,
                {
                    let mut line: Vec<Pixel> = Vec::new();
                    let mut x: usize = 0;
                    while x < lw
                        invariant
                            x <= lw,
                            line@.len() == x,
                            forall|rx: int| 0 <= rx < x ==> line@[rx] == c,
                        decreases lw - x,
                    {
                        line.push(c);
                        x += 1;
                    }
                    grid.push(line);
                    y += 1;
                }
            },
            WorldObjectData::Image { rgba, width: src_w, height: src_h } => {
                let sw = *src_w;
                let sh = *src_h;
                let ghost bytes = rgba@;
                let n = rgba.len();
                let mut y: usize = 0;
                while y < lh
                    invariant
                        y <= lh,
                        1 <= sw <= MAX_DIM,
                        1 <= sh <= MAX_DIM,
                        lw <= MAX_DIM,
                        lh <= MAX_DIM,
                        bytes.len() == 4 * sw * sh,
                        rgba@ == bytes,
                        n == bytes.len(),
                        grid@.len() == y,
                        forall|ry: int| 0 <= ry < y ==> grid@[ry]@.len() == lw,
                        forall|ry: int, rx: int|
                            0 <= ry < y && 0 <= rx < lw ==> grid@[ry]@[rx] == image_sample(
                                bytes,
                                sw as int,
                                sh as int,
                                lw as int,
                                lh as int,
                                rx,
                                ry,
                            ),
                    decreases lh - y,
                {
                    proof {
                        assert(y * (sh as int) < (sh as int) * (lh as int) && 0 <= y * (sh as int)
                            && y * sh <= MAX_DIM * MAX_DIM) by (nonlinear_arith)
                            requires
                                0 <= y && y < lh && 0 < sh && lh <= MAX_DIM && sh <= MAX_DIM,
                        ;
                        lemma_div_below(y * sh as int, lh as int, sh as int);
                        vstd::arithmetic::div_mod::lemma_div_pos_is_pos(
                            y * sh as int,
                            lh as int,
                        );
                    }
                    let row = y * sh / lh;
                    proof {
                        assert(row * sw <= MAX_DIM * MAX_DIM) by (nonlinear_arith)
                            requires
                                0 <= row && row < sh && sh <= MAX_DIM && 0 <= sw && sw <= MAX_DIM,
                        ;
                        assert(0 <= row * sw) by (nonlinear_arith)
                            requires
                                0 <= row && 0 <= sw,
                        ;
                    }
                    let base = row * sw;
                    let mut line: Vec<Pixel> = Vec::new();
                    let mut x: usize = 0;
                    while x < lw
                        invariant
                            y < lh,
                            x <= lw,
                            1 <= sw <= MAX_DIM,
                            1 <= sh <= MAX_DIM,
                            lw <= MAX_DIM,
                            lh <= MAX_DIM,
                            bytes.len() == 4 * sw * sh,
                            rgba@ == bytes,
                            n == bytes.len(),
                            row as int == y * (sh as int) / (lh as int),
                            row < sh,
                            base == row * sw,
                            line@.len() == x,
                            forall|rx: int|
                                0 <= rx < x ==> line@[rx] == image_sample(
                                    bytes,
                                    sw as int,
                                    sh as int,
                                    lw as int,
                                    lh as int,
                                    rx,
                                    y as int,
                                ),
                        decreases lw - x,
                    {
                        proof {
                            assert(x * (sw as int) < (sw as int) * (lw as int) && 0 <= x * (
                            sw as int) && x * sw <= MAX_DIM * MAX_DIM) by (nonlinear_arith)
                                requires
                                    0 <= x && x < lw && 0 < sw && lw <= MAX_DIM && sw <= MAX_DIM,
                            ;
                            lemma_div_below(x * sw as int, lw as int, sw as int);
                            vstd::arithmetic::div_mod::lemma_div_pos_is_pos(
                                x * sw as int,
                                lw as int,
                            );
                            assert(row * sw + (x * sw / lw as int) < sh * sw) by (nonlinear_arith)
                                requires
                                    row < sh && 0 <= row && (x * sw / lw as int) < sw && 0 <= (x
                                        * sw / lw as int) && 0 < sw,
                            ;
                            assert(4 * (sh * sw) == bytes.len()) by (nonlinear_arith)
                                requires
                                    bytes.len() == 4 * sw * sh,
                            ;
                            assert(4 * (row * sw + (x * sw / lw as int)) + 3 < bytes.len());
                        }
                        let col = x * sw / lw;
                        let idx = 4 * (base + col);
                        let line_px = Pixel::Opaque {
                            r: rgba[idx],
                            g: rgba[idx + 1],
                            b: rgba[idx + 2],
                        };
                        line.push(line_px);
                        x += 1;
                    }
                    grid.push(line);
                    y += 1;
                }
            },
        }
        self.state.layer.pixel_data = grid;
    }

    /// Per-frame update: a rectangle stays put; an image drifts horizontally,
    /// its `pos_x` re-anchored each frame to its start position plus a
    /// 100-pixel cycle advancing one pixel per 10 ms.
    pub fn draw_again(&mut self, elapsed_ms: u64)
        requires
            old(self).wf(),
        ensures
            final(self).wf(),
            drifted_from(final(self).state, old(self).state, elapsed_ms),
    {
        match &self.state.data {
            WorldObjectData::Rectangle { .. } => {},
            WorldObjectData::Image { .. } => {
                let off = (elapsed_ms / 10 % 100) as usize;
                self.state.layer.pos_x = self.state.layer.pos_x_start + off;
            },
        }
    }
}

} // verus!
