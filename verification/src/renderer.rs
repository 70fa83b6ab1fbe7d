//! The top-level renderer: owns the scene, the object pass and the light
//! field, and drives one frame from interaction to composited pixels.

use vstd::prelude::*;

use crate::error::RenderError;
use crate::layer::MAX_DIM;
use crate::light_map::{cell_value, grid_to_world, LightMap};
use crate::object_renderer::{composited, ObjectNoLightRenderer};
use crate::objects::drifted_from;
use crate::render_joiner;
use crate::world::{World, MAX_EXTENT};

verus! {

/// A pointer interaction, already translated to plain values by the host.
#[derive(Clone, Copy, Debug, PartialEq, Eq, Structural)]
pub enum Interactions {
    MouseDown { button: i16, x: i32, y: i32 },
    MouseMove { button: i16, x: i32, y: i32 },
}

/// The world coordinate a pointer coordinate `p` on a viewport axis of `v`
/// pixels maps to: the real-number map `(2p/v - 1) * extent` evaluated in
/// fixed point, truncating toward zero.
pub open spec fn pointer_world(p: int, v: int, extent: int) -> int {
    if 2 * p >= v {
        extent * (2 * p - v) / v
    } else {
        -(extent * (v - 2 * p) / v)
    }
}

/// A pointer event on the exact center of the viewport axis maps to world
/// coordinate zero.
pub proof fn lemma_pointer_center_maps_to_origin(p: int, v: int, extent: int)
    requires
        0 < v,
        2 * p == v,
    ensures
        pointer_world(p, v, extent) == 0,
{
    assert(extent * 0 == 0) by (nonlinear_arith);
    vstd::arithmetic::div_mod::lemma_div_of0(v);
}

/// The renderer: the scene, the screen dimensions, the light field grid and
/// the object pass.
pub struct WorldRenderer {
    pub world: World,
    pub width: usize,
    pub height: usize,
    pub lights_renderer: LightMap,
    pub objects_renderer: ObjectNoLightRenderer,
}

impl WorldRenderer {
    pub open spec fn wf(self) -> bool {
        &&& self.world.wf()
        &&& self.width <= MAX_DIM
        &&& self.height <= MAX_DIM
        &&& self.lights_renderer.wf()
        &&& self.objects_renderer.wf()
        &&& self.objects_renderer.width == self.width
        &&& self.objects_renderer.height == self.height
    }

    /// Builds a renderer over a scene and a screen size, with the light grid
    /// downsampled by a factor of two. A screen too small for a two-cell
    /// grid axis, or out of range, is `InvalidDimensions`.
    pub fn new(world: World, width: usize, height: usize) -> (r: Result<
        WorldRenderer,
        RenderError,
    >)
        requires
            world.wf(),
        ensures
            r is Ok <==> (width <= MAX_DIM && height <= MAX_DIM && width as int / 2 >= 2
                && height as int / 2 >= 2),
            r is Err ==> r == Err::<WorldRenderer, RenderError>(RenderError::InvalidDimensions),
            r matches Ok(wr) ==> {
                &&& wr.wf()
                &&& wr.world == world
                &&& wr.width == width
                &&& wr.height == height
                &&& wr.lights_renderer.width == width as int / 2
                &&& wr.lights_renderer.height == height as int / 2
                &&& wr.lights_renderer.inaccuracy == 2
                &&& (forall|i: int|
                    0 <= i < wr.lights_renderer.data@.len() ==> wr.lights_renderer.data@[i] == (
                    0u16, 0u16, 0u16))
                &&& (forall|i: int|
                    0 <= i < wr.objects_renderer.buffer@.len()
                        ==> wr.objects_renderer.buffer@[i] == (0u8, 0u8, 0u8))
            },
    {
        match LightMap::new(width, height, 2) {
            Ok(lights_renderer) => Ok(
                WorldRenderer {
                    world,
                    width,
                    height,
                    lights_renderer,
                    objects_renderer: ObjectNoLightRenderer::new(width, height),
                },
            ),
            Err(e) => Err(e),
        }
    }

    /// One-time scene setup: rasterizes every object into its layer.
    pub fn init(&mut self)
        requires
            old(self).wf(),
        ensures
            final(self).wf(),
            final(self).width == old(self).width,
            final(self).height == old(self).height,
            final(self).lights_renderer == old(self).lights_renderer,
            final(self).objects_renderer == old(self).objects_renderer,
            final(self).world.width == old(self).world.width,
            final(self).world.height == old(self).world.height,
            final(self).world.lights_rendered@ == old(self).world.lights_rendered@,
            final(self).world.objects_rendered@.len() == old(self).world.objects_rendered@.len(),
            forall|i: int|
                0 <= i < old(self).world.objects_rendered@.len()
                    ==> crate::objects::rasterized_from(
                    final(self).world.objects_rendered@[i].state,
                    old(self).world.objects_rendered@[i].state,
                ),
    {
        self.objects_renderer.draw_init(&mut self.world);
    }

    /// Reallocates the object buffer and the light grid (at the configured
    /// downsample factor) for a new surface size; the externally owned
    /// output buffer is the host's to resize. A screen too small for a
    /// two-cell grid axis, or out of range, is `InvalidDimensions` and
    /// leaves everything untouched.
    pub fn resize(&mut self, width: usize, height: usize) -> (r: Result<(), RenderError>)
        requires
            old(self).wf(),
        ensures
            final(self).wf(),
            r is Ok <==> (width <= MAX_DIM && height <= MAX_DIM && width as int / (old(self).lights_renderer.inaccuracy as int) >= 2 && height as int / (old(self).lights_renderer.inaccuracy as int) >= 2),
            r is Err ==> r == Err::<(), RenderError>(RenderError::InvalidDimensions) && *final(self)
                == *old(self),
            r is Ok ==> {
                &&& final(self).world == old(self).world
                &&& final(self).width == width
                &&& final(self).height == height
                &&& final(self).lights_renderer.inaccuracy == old(self).lights_renderer.inaccuracy
                &&& final(self).lights_renderer.width == width as int / (old(self).lights_renderer.inaccuracy as int)
                &&& final(self).lights_renderer.height == height as int / (old(self).lights_renderer.inaccuracy as int)
                &&& (forall|i: int|
                    0 <= i < final(self).lights_renderer.data@.len() ==> final(self).lights_renderer.data@[i] == (0u16, 0u16, 0u16))
                &&& (forall|i: int|
                    0 <= i < final(self).objects_renderer.buffer@.len() ==> final(self).objects_renderer.buffer@[i] == (0u8, 0u8, 0u8))
            },
    {
        let inaccuracy = self.lights_renderer.inaccuracy;
        match LightMap::new(width, height, inaccuracy) {
            Ok(lights_renderer) => {
                self.lights_renderer = lights_renderer;
                self.objects_renderer = ObjectNoLightRenderer::new(width, height);
                self.width = width;
                self.height = height;
                Ok(())
            },
            Err(e) => Err(e),
        }
    }

    /// Renders one frame into `image_data`: updates every object layer,
    /// re-blends them onto the object buffer, recomputes the light grid, and
    /// joins object buffer and light grid into the RGBA output. An output
    /// buffer whose length is not `4 * width * height` is `InvalidDimensions`
    /// and leaves everything untouched.
    pub fn render(&mut self, image_data: &mut Vec<u8>, elapsed_ms: u64) -> (r: Result<
        (),
        RenderError,
    >)
        requires
            old(self).wf(),
        ensures
            final(self).wf(),
            old(image_data)@.len() != 4 * (old(self).width * old(self).height) ==> {
                &&& r == Err::<(), RenderError>(RenderError::InvalidDimensions)
                &&& *final(self) == *old(self)
                &&& final(image_data)@ == old(image_data)@
            },
            old(image_data)@.len() == 4 * (old(self).width * old(self).height) ==> {
                &&& r is Ok
                &&& final(self).width == old(self).width
                &&& final(self).height == old(self).height
                &&& final(self).lights_renderer.width == old(self).lights_renderer.width
                &&& final(self).lights_renderer.height == old(self).lights_renderer.height
                &&& final(self).world.width == old(self).world.width
                &&& final(self).world.height == old(self).world.height
                &&& final(self).world.lights_rendered@ == old(self).world.lights_rendered@
                &&& final(self).world.objects_rendered@.len() == old(self).world.objects_rendered@.len()
                &&& (forall|i: int|
                    0 <= i < old(self).world.objects_rendered@.len() ==> drifted_from(
                        final(self).world.objects_rendered@[i].state,
                        old(self).world.objects_rendered@[i].state,
                        elapsed_ms,
                    ))
                &&& final(self).objects_renderer.buffer@ == composited(
                    final(self).world.objects_rendered@,
                    old(self).objects_renderer.buffer@,
                    old(self).width as int,
                )
                &&& (forall|gy: int, gx: int|
                    0 <= gy < old(self).lights_renderer.height && 0 <= gx < old(self).lights_renderer.width ==> final(self).lights_renderer.data@[gy * old(self).lights_renderer.width + gx] == cell_value(
                        old(self).world.lights_rendered@,
                        grid_to_world(
                            gx,
                            old(self).lights_renderer.width as int,
                            old(self).world.width as int,
                        ),
                        grid_to_world(
                            gy,
                            old(self).lights_renderer.height as int,
                            old(self).world.height as int,
                        ),
                    ))
                &&& final(image_data)@ == render_joiner::joined(
                    final(self).objects_renderer.buffer@,
                    final(self).lights_renderer.data@,
                    old(self).width as int,
                    old(self).height as int,
                    old(self).lights_renderer.width as int,
                    old(self).lights_renderer.height as int,
                )
            },
    {
        proof {
            assert(0 <= self.width * self.height && self.width * self.height <= MAX_DIM * MAX_DIM)
                by (nonlinear_arith)
                requires
                    0 <= self.width <= MAX_DIM && 0 <= self.height <= MAX_DIM,
            ;
        }
        let wh = self.width * self.height;
        let n = image_data.len();
        if n % 4 != 0 || n / 4 != wh {
            proof {
                vstd::arithmetic::div_mod::lemma_fundamental_div_mod(n as int, 4);
            }
            return Err(RenderError::InvalidDimensions);
        }
        proof {
            vstd::arithmetic::div_mod::lemma_fundamental_div_mod(n as int, 4);
        }
        self.objects_renderer.draw_all(&mut self.world, elapsed_ms);
        self.lights_renderer.calculate(&self.world, self.width, self.height);
        render_joiner::join(image_data, self);
        Ok(())
    }

    /// Applies one pointer interaction: a move re-positions light 0 to the
    /// world point under the pointer; a press is accepted without any state
    /// change. A zero viewport axis is `InvalidDimensions`; a move with no
    /// lights in the scene is `IndexOutOfRange`.
    pub fn pointer_event(&mut self, interaction: Interactions, viewport_w: u32, viewport_h: u32)
        -> (r: Result<(), RenderError>)
        requires
            old(self).wf(),
            match interaction {
                Interactions::MouseMove { button, x, y } => 0 <= x <= viewport_w && 0 <= y
                    <= viewport_h,
                Interactions::MouseDown { .. } => true,
            },
        ensures
            final(self).wf(),
            (viewport_w == 0 || viewport_h == 0) ==> r == Err::<(), RenderError>(
                RenderError::InvalidDimensions,
            ) && *final(self) == *old(self),
            viewport_w > 0 && viewport_h > 0 ==> match interaction {
                Interactions::MouseDown { .. } => r is Ok && *final(self) == *old(self),
                Interactions::MouseMove { button, x, y } => {
                    &&& old(self).world.lights_rendered@.len() == 0 ==> r == Err::<
                        (),
                        RenderError,
                    >(RenderError::IndexOutOfRange) && *final(self) == *old(self)
                    &&& old(self).world.lights_rendered@.len() > 0 ==> {
                        &&& r is Ok
                        &&& final(self).width == old(self).width
                        &&& final(self).height == old(self).height
                        &&& final(self).lights_renderer == old(self).lights_renderer
                        &&& final(self).objects_renderer == old(self).objects_renderer
                        &&& final(self).world.width == old(self).world.width
                        &&& final(self).world.height == old(self).world.height
                        &&& final(self).world.objects_rendered@ == old(self).world.objects_rendered@
                        &&& final(self).world.lights_rendered@.len() == old(self).world.lights_rendered@.len()
                        &&& final(self).world.lights_rendered@[0].x == pointer_world(
                            x as int,
                            viewport_w as int,
                            old(self).world.width as int,
                        )
                        &&& final(self).world.lights_rendered@[0].y == pointer_world(
                            y as int,
                            viewport_h as int,
                            old(self).world.height as int,
                        )
                        &&& final(self).world.lights_rendered@[0].brightness == old(self).world.lights_rendered@[0].brightness
                        &&& final(self).world.lights_rendered@[0].size == old(self).world.lights_rendered@[0].size
                        &&& final(self).world.lights_rendered@[0].range == old(self).world.lights_rendered@[0].range
                        &&& (forall|i: int|
                            1 <= i < old(self).world.lights_rendered@.len() ==> final(self).world.lights_rendered@[i] == old(self).world.lights_rendered@[i])
                    }
                },
            },
    {
        if viewport_w == 0 || viewport_h == 0 {
            return Err(RenderError::InvalidDimensions);
        }
        match interaction {
            Interactions::MouseDown { .. } => Ok(()),
            Interactions::MouseMove { button: _, x, y } => {
                if self.world.lights_rendered.len() == 0 {
                    return Err(RenderError::IndexOutOfRange);
                }
                let nx = pointer_axis_world(x, viewport_w, self.world.width);
                let ny = pointer_axis_world(y, viewport_h, self.world.height);
                self.world.lights_rendered[0].x = nx;
                self.world.lights_rendered[0].y = ny;
                Ok(())
            },
        }
    }
}

/// The world coordinate under pointer coordinate `p` on a viewport axis of
/// `v` pixels, computed exactly as `pointer_world` states it.
fn pointer_axis_world(p: i32, v: u32, extent: i64) -> (c: i64)
    requires
        0 < v,
        0 <= p <= v,
        0 < extent <= MAX_EXTENT,
    ensures
        c as int == pointer_world(p as int, v as int, extent as int),
        -MAX_EXTENT <= c <= MAX_EXTENT,
{
    let p2: i64 = 2 * (p as i64);
    let vv: i64 = v as i64;
    if p2 >= vv {
        let num = (p2 - vv) as u128;
        proof {
            assert(extent * num <= extent * vv && 0 <= extent * num && extent * num <= 0x800_0000_0000 * 0x1_0000_0000) by (nonlinear_arith)
                requires
                    0 <= num <= vv && 0 <= extent <= 0x800_0000_0000 && vv <= 0xFFFF_FFFF,
            ;
            crate::arith::lemma_div_at_most(extent * num, vv as int, extent as int);
            vstd::arithmetic::div_mod::lemma_div_pos_is_pos(extent * num, vv as int);
        }
        let val = (extent as u128) * num / (vv as u128);
        val as i64
    } else {
        let num = (vv - p2) as u128;
        proof {
            assert(extent * num <= extent * vv && 0 <= extent * num && extent * num <= 0x800_0000_0000 * 0x1_0000_0000) by (nonlinear_arith)
                requires
                    0 <= num <= vv && 0 <= extent <= 0x800_0000_0000 && vv <= 0xFFFF_FFFF,
            ;
            crate::arith::lemma_div_at_most(extent * num, vv as int, extent as int);
            vstd::arithmetic::div_mod::lemma_div_pos_is_pos(extent * num, vv as int);
        }
        let val = (extent as u128) * num / (vv as u128);
        -(val as i64)
    }
}

} // verus!
