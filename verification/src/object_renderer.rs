//! The object pass: keeps the full-resolution object buffer and blends every
//! object's layer onto it in scene order (the painter's algorithm).

use vstd::prelude::*;

use crate::layer::{layer_blended, MAX_DIM};
use crate::objects::{drifted_from, rasterized_from, WorldObject};
use crate::world::World;

verus! {

/// The object buffer after blending the layers of `objs` onto `init` in
/// order: later objects overwrite earlier ones where their pixels are not
/// transparent.
pub open spec fn composited(objs: Seq<WorldObject>, init: Seq<(u8, u8, u8)>, w: int) -> Seq<
    (u8, u8, u8),
>
    decreases objs.len(),
{
    if objs.len() == 0 {
        init
    } else {
        layer_blended(objs.last().state.layer, composited(objs.drop_last(), init, w), w)
    }
}

/// Blending one more object extends the composite by one layer.
pub proof fn lemma_composited_step(objs: Seq<WorldObject>, init: Seq<(u8, u8, u8)>, w: int, i: int)
    requires
        0 <= i < objs.len(),
    ensures
        composited(objs.take(i + 1), init, w) == layer_blended(
            objs[i].state.layer,
            composited(objs.take(i), init, w),
            w,
        ),
{
    assert(objs.take(i + 1).drop_last() =~= objs.take(i));
    assert(objs.take(i + 1).last() == objs[i]);
}

/// Renders all objects, lighting aside: owns the full-resolution RGB object
/// buffer that every layer is blended onto.
pub struct ObjectNoLightRenderer {
    pub width: usize,
    pub height: usize,
    pub buffer: Vec<(u8, u8, u8)>,
}

impl ObjectNoLightRenderer {
    pub open spec fn wf(self) -> bool {
        &&& self.width <= MAX_DIM
        &&& self.height <= MAX_DIM
        &&& self.buffer@.len() == self.width * self.height
    }

    /// Builds a renderer with a zeroed `w` by `h` object buffer.
    pub fn new(w: usize, h: usize) -> (r: ObjectNoLightRenderer)
        requires
            w <= MAX_DIM,
            h <= MAX_DIM,
        ensures
            r.wf(),
            r.width == w,
            r.height == h,
            forall|i: int| 0 <= i < r.buffer@.len() ==> r.buffer@[i] == (0u8, 0u8, 0u8),
    {
        proof {
            assert(0 <= w * h && w * h <= MAX_DIM * MAX_DIM) by (nonlinear_arith)
                requires
                    0 <= w <= MAX_DIM && 0 <= h <= MAX_DIM,
            ;
        }
        let len = w * h;
        let mut buffer: Vec<(u8, u8, u8)> = Vec::new();
        let mut i: usize = 0;
        while i < len
            invariant
                i <= len,
                buffer@.len() == i,
                forall|j: int| 0 <= j < i ==> buffer@[j] == (0u8, 0u8, 0u8),
            decreases len - i,
        {
            buffer.push((0, 0, 0));
            i += 1;
        }
        ObjectNoLightRenderer { width: w, height: h, buffer }
    }

    /// One-time rasterization of every object into its layer, in order.
    pub fn draw_init(&mut self, world: &mut World)
        requires
            old(world).wf(),
        ensures
            *final(self) == *old(self),
            final(world).wf(),
            final(world).width == old(world).width,
            final(world).height == old(world).height,
            final(world).lights_rendered@ == old(world).lights_rendered@,
            final(world).objects_rendered@.len() == old(world).objects_rendered@.len(),
            forall|i: int|
                0 <= i < old(world).objects_rendered@.len() ==> rasterized_from(
                    final(world).objects_rendered@[i].state,
                    old(world).objects_rendered@[i].state,
                ),
    {
        let len = world.objects_rendered.len();
        let mut i: usize = 0;
        while i < len
            invariant
                i <= len,
                len == world.objects_rendered@.len(),
                world.wf(),
                world.width == old(world).width,
                world.height == old(world).height,
                world.lights_rendered@ == old(world).lights_rendered@,
                world.objects_rendered@.len() == old(world).objects_rendered@.len(),
                forall|j: int|
                    0 <= j < i ==> rasterized_from(
                        world.objects_rendered@[j].state,
                        old(world).objects_rendered@[j].state,
                    ),
                forall|j: int|
                    i <= j < len ==> world.objects_rendered@[j] == old(
                        world,
                    ).objects_rendered@[j],
            decreases len - i,
        {
            let o = &mut world.objects_rendered[i];
            o.draw_init();
            i += 1;
        }
    }

    /// Per-frame update of every object's layer position.
    pub fn draw_to_layers(&mut self, world: &mut World, elapsed_ms: u64)
        requires
            old(world).wf(),
        ensures
            *final(self) == *old(self),
            final(world).wf(),
            final(world).width == old(world).width,
            final(world).height == old(world).height,
            final(world).lights_rendered@ == old(world).lights_rendered@,
            final(world).objects_rendered@.len() == old(world).objects_rendered@.len(),
            forall|i: int|
                0 <= i < old(world).objects_rendered@.len() ==> drifted_from(
                    final(world).objects_rendered@[i].state,
                    old(world).objects_rendered@[i].state,
                    elapsed_ms,
                ),
    {
        let len = world.objects_rendered.len();
        let mut i: usize = 0;
        while i < len
            invariant
                i <= len,
                len == world.objects_rendered@.len(),
                world.wf(),
                world.width == old(world).width,
                world.height == old(world).height,
                world.lights_rendered@ == old(world).lights_rendered@,
                world.objects_rendered@.len() == old(world).objects_rendered@.len(),
                forall|j: int|
                    0 <= j < i ==> drifted_from(
                        world.objects_rendered@[j].state,
                        old(world).objects_rendered@[j].state,
                        elapsed_ms,
                    ),
                forall|j: int|
                    i <= j < len ==> world.objects_rendered@[j] == old(
                        world,
                    ).objects_rendered@[j],
            decreases len - i,
        {
            let o = &mut world.objects_rendered[i];
            o.draw_again(elapsed_ms);
            i += 1;
        }
    }

    /// Blends every object's layer onto the object buffer in scene order.
    pub fn draw_to_buffer(&mut self, world: &World)
        requires
            old(self).wf(),
            world.wf(),
        ensures
            final(self).wf(),
            final(self).width == old(self).width,
            final(self).height == old(self).height,
            final(self).buffer@ == composited(
                world.objects_rendered@,
                old(self).buffer@,
                old(self).width as int,
            ),
    {
        let ghost objs = world.objects_rendered@;
        let ghost init = self.buffer@;
        let ghost w = self.width as int;
        let len = world.objects_rendered.len();
        let mut i: usize = 0;
        proof {
            assert(objs.take(0) =~= Seq::<WorldObject>::empty());
        }
        while i < len
            invariant
                i <= len,
                len == world.objects_rendered@.len(),
                world.wf(),
                objs == world.objects_rendered@,
                self.wf(),
                self.width == old(self).width,
                self.height == old(self).height,
                w == self.width as int,
                init.len() == self.width * self.height,
                self.buffer@ == composited(objs.take(i as int), init, w),
            decreases len - i,
        {
            let o = &world.objects_rendered[i];
            o.state.layer.draw_onto(&mut self.buffer, self.width, self.height);
            proof {
                lemma_composited_step(objs, init, w, i as int);
            }
            i += 1;
        }
        proof {
            assert(objs.take(len as int) =~= objs);
        }
    }

    /// The per-frame object pass: updates every layer's position, then blends
    /// all layers onto the object buffer.
    pub fn draw_all(&mut self, world: &mut World, elapsed_ms: u64)
        requires
            old(self).wf(),
            old(world).wf(),
        ensures
            final(self).wf(),
            final(self).width == old(self).width,
            final(self).height == old(self).height,
            final(world).wf(),
            final(world).width == old(world).width,
            final(world).height == old(world).height,
            final(world).lights_rendered@ == old(world).lights_rendered@,
            final(world).objects_rendered@.len() == old(world).objects_rendered@.len(),
            forall|i: int|
                0 <= i < old(world).objects_rendered@.len() ==> drifted_from(
                    final(world).objects_rendered@[i].state,
                    old(world).objects_rendered@[i].state,
                    elapsed_ms,
                ),
            final(self).buffer@ == composited(
                final(world).objects_rendered@,
                old(self).buffer@,
                old(self).width as int,
            ),
    {
        self.draw_to_layers(world, elapsed_ms);
        self.draw_to_buffer(world);
    }
}

} // verus!
