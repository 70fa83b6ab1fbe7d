//! The scene model: world-space dimensions, point lights and scene objects.
//!
//! World-space coordinates are signed fixed-point numbers scaled by 65536
//! (one world unit is 65536 fixed-point steps), so the fractional positions
//! the renderer works with stay exact integers.

use vstd::prelude::*;

use crate::error::RenderError;
use crate::objects::{abs_geometry_ok, built_abs, rel_to_abs, WorldObject, WorldObjectData};

verus! {

/// One world unit in fixed-point steps.
pub const FX_ONE: i64 = 65536;

/// Bound on the magnitude of a light coordinate, in fixed-point steps.
pub const MAX_POS: i64 = 0x2000_0000_0000;

/// Bound on a world half-extent and on light radii, in fixed-point steps.
/// Kept four times smaller than `MAX_POS` so a light may wander to twice the
/// world extent (the drift wrap band) and still be a valid coordinate.
pub const MAX_EXTENT: i64 = 0x800_0000_0000;

/// A point light: position and radii in fixed-point world units, brightness
/// per channel. Inside `size` the light contributes its full brightness; from
/// `size` to `size + range` the contribution falls off to zero.
#[derive(Clone, Copy, Debug, PartialEq, Eq)]
pub struct LightObject {
    pub x: i64,
    pub y: i64,
    pub brightness: (u16, u16, u16),
    pub size: i64,
    pub range: i64,
}

impl LightObject {
    /// Coordinates stay within the renderer's coordinate band and radii are
    /// nonnegative and bounded.
    pub open spec fn wf(self) -> bool {
        &&& -MAX_POS <= self.x <= MAX_POS
        &&& -MAX_POS <= self.y <= MAX_POS
        &&& 0 <= self.size <= MAX_EXTENT
        &&& 0 <= self.range <= MAX_EXTENT
    }

    pub fn new(x: i64, y: i64, brightness: (u16, u16, u16), size: i64, range: i64) -> (l:
        LightObject)
        requires
            -MAX_POS <= x <= MAX_POS,
            -MAX_POS <= y <= MAX_POS,
            0 <= size <= MAX_EXTENT,
            0 <= range <= MAX_EXTENT,
        ensures
            l.wf(),
            l.x == x,
            l.y == y,
            l.brightness == brightness,
            l.size == size,
            l.range == range,
    {
        LightObject { x, y, brightness, size, range }
    }
}

/// Where a light sits after the positive horizontal drift step: it moves by
/// `step` fixed-point units and wraps to the far left once it passes twice
/// the world half-extent.
pub open spec fn drift_right(x: int, step: int, w: int) -> int {
    if x + step > 2 * w {
        -2 * w
    } else {
        x + step
    }
}

/// Where a light sits after the negative horizontal drift step: it moves by
/// `-step` fixed-point units and wraps to the far right once it passes twice
/// the world half-extent leftward.
pub open spec fn drift_left(x: int, step: int, w: int) -> int {
    if x - step < -2 * w {
        2 * w
    } else {
        x - step
    }
}

/// The scene: world half-extents in fixed-point units, the objects and the
/// lights. Light 0 is the interactive one; lights 1 and 2 drift on their own.
pub struct World {
    pub width: i64,
    pub height: i64,
    pub objects_rendered: Vec<WorldObject>,
    pub lights_rendered: Vec<LightObject>,
}

impl World {
    pub open spec fn wf(self) -> bool {
        &&& 0 < self.width <= MAX_EXTENT
        &&& 0 < self.height <= MAX_EXTENT
        &&& (forall|i: int|
            0 <= i < self.lights_rendered@.len() ==> self.lights_rendered@[i].wf())
        &&& (forall|i: int|
            0 <= i < self.objects_rendered@.len() ==> self.objects_rendered@[i].wf())
    }

    /// Builds an empty scene over the given world half-extents; zero,
    /// negative or out-of-range extents are `InvalidDimensions`.
    pub fn new(width: i64, height: i64) -> (r: Result<World, RenderError>)
        ensures
            r is Ok <==> (0 < width <= MAX_EXTENT && 0 < height <= MAX_EXTENT),
            r matches Ok(w) ==> {
                &&& w.wf()
                &&& w.width == width
                &&& w.height == height
                &&& w.objects_rendered@.len() == 0
                &&& w.lights_rendered@.len() == 0
            },
            r is Err ==> r == Err::<World, RenderError>(RenderError::InvalidDimensions),
    {
        if width <= 0 || height <= 0 || width > MAX_EXTENT || height > MAX_EXTENT {
            return Err(RenderError::InvalidDimensions);
        }
        Ok(
            World {
                width,
                height,
                objects_rendered: Vec::new(),
                lights_rendered: Vec::new(),
            },
        )
    }

    /// Appends a light to the scene.
    pub fn add_light(&mut self, x: i64, y: i64, brightness: (u16, u16, u16), size: i64, range: i64)
        requires
            old(self).wf(),
            -MAX_POS <= x <= MAX_POS,
            -MAX_POS <= y <= MAX_POS,
            0 <= size <= MAX_EXTENT,
            0 <= range <= MAX_EXTENT,
        ensures
            final(self).wf(),
            final(self).width == old(self).width,
            final(self).height == old(self).height,
            final(self).objects_rendered@ == old(self).objects_rendered@,
            final(self).lights_rendered@ == old(self).lights_rendered@.push(
                LightObject { x, y, brightness, size, range },
            ),
    {
        let l = LightObject::new(x, y, brightness, size, range);
        self.lights_rendered.push(l);
    }

    /// Appends an object placed in absolute pixel coordinates on a
    /// `screen_w` by `screen_h` screen. On an error the scene is untouched.
    pub fn add_object_absolute(
        &mut self,
        data_and_type: WorldObjectData,
        pos_x: usize,
        pos_y: usize,
        pos_w: usize,
        pos_h: usize,
        screen_w: usize,
        screen_h: usize,
    ) -> (r: Result<(), RenderError>)
        requires
            old(self).wf(),
        ensures
            final(self).wf(),
            r is Ok <==> (abs_geometry_ok(
                pos_x as int,
                pos_y as int,
                pos_w as int,
                pos_h as int,
                screen_w as int,
                screen_h as int,
            ) && data_and_type.wf()),
            r matches Err(e) ==> *final(self) == *old(self) && (e == RenderError::InvalidDimensions
                || e == RenderError::ImageDecodeMismatch),
            r is Ok ==> {
                &&& final(self).width == old(self).width
                &&& final(self).height == old(self).height
                &&& final(self).lights_rendered@ == old(self).lights_rendered@
                &&& final(self).objects_rendered@.len() == old(self).objects_rendered@.len() + 1
                &&& (forall|i: int|
                    0 <= i < old(self).objects_rendered@.len() ==> final(self).objects_rendered@[i]
                        == old(self).objects_rendered@[i])
                &&& built_abs(
                    final(self).objects_rendered@.last(),
                    data_and_type,
                    pos_x as int,
                    pos_y as int,
                    pos_w as int,
                    pos_h as int,
                    screen_w as int,
                    screen_h as int,
                )
            },
    {
        match WorldObject::new_abs(data_and_type, pos_x, pos_y, pos_w, pos_h, screen_w, screen_h) {
            Ok(o) => {
                self.objects_rendered.push(o);
                Ok(())
            },
            Err(e) => Err(e),
        }
    }

    /// Appends an object placed by fractions of the screen (scaled by
    /// 65536), rounding to whole pixels. On an error the scene is untouched.
    pub fn add_object_relative(
        &mut self,
        data_and_type: WorldObjectData,
        pos_x: i64,
        pos_y: i64,
        pos_w: i64,
        pos_h: i64,
        screen_w: usize,
        screen_h: usize,
    ) -> (r: Result<(), RenderError>)
        requires
            old(self).wf(),
            0 <= pos_x <= 65536,
            0 <= pos_y <= 65536,
            0 <= pos_w <= 65536,
            0 <= pos_h <= 65536,
            screen_w <= crate::layer::MAX_DIM,
            screen_h <= crate::layer::MAX_DIM,
        ensures
            final(self).wf(),
            r is Ok <==> data_and_type.wf(),
            r matches Err(e) ==> *final(self) == *old(self) && (e == RenderError::InvalidDimensions
                || e == RenderError::ImageDecodeMismatch),
            r is Ok ==> {
                &&& final(self).width == old(self).width
                &&& final(self).height == old(self).height
                &&& final(self).lights_rendered@ == old(self).lights_rendered@
                &&& final(self).objects_rendered@.len() == old(self).objects_rendered@.len() + 1
                &&& (forall|i: int|
                    0 <= i < old(self).objects_rendered@.len() ==> final(self).objects_rendered@[i]
                        == old(self).objects_rendered@[i])
                &&& built_abs(
                    final(self).objects_rendered@.last(),
                    data_and_type,
                    rel_to_abs(pos_x as int, screen_w as int),
                    rel_to_abs(pos_y as int, screen_h as int),
                    rel_to_abs(pos_w as int, screen_w as int),
                    rel_to_abs(pos_h as int, screen_h as int),
                    screen_w as int,
                    screen_h as int,
                )
            },
    {
        match WorldObject::new_rel(data_and_type, pos_x, pos_y, pos_w, pos_h, screen_w, screen_h) {
            Ok(o) => {
                self.objects_rendered.push(o);
                Ok(())
            },
            Err(e) => Err(e),
        }
    }

    /// Moves the two autonomous lights one frame further: light 1 drifts
    /// seven world units to the right, light 2 three to the left, each
    /// wrapping at twice the world half-extent. Fewer than three lights is
    /// `IndexOutOfRange` and leaves the scene untouched.
    pub fn drift_lights(&mut self) -> (r: Result<(), RenderError>)
        requires
            old(self).wf(),
        ensures
            final(self).wf(),
            old(self).lights_rendered@.len() < 3 ==> r == Err::<(), RenderError>(
                RenderError::IndexOutOfRange,
            ) && *final(self) == *old(self),
            old(self).lights_rendered@.len() >= 3 ==> {
                &&& r is Ok
                &&& final(self).width == old(self).width
                &&& final(self).height == old(self).height
                &&& final(self).objects_rendered@ == old(self).objects_rendered@
                &&& final(self).lights_rendered@.len() == old(self).lights_rendered@.len()
                &&& final(self).lights_rendered@[1] == (LightObject {
                    x: drift_right(
                        old(self).lights_rendered@[1].x as int,
                        7 * FX_ONE,
                        old(self).width as int,
                    ) as i64,
                    ..old(self).lights_rendered@[1]
                })
                &&& final(self).lights_rendered@[2] == (LightObject {
                    x: drift_left(
                        old(self).lights_rendered@[2].x as int,
                        3 * FX_ONE,
                        old(self).width as int,
                    ) as i64,
                    ..old(self).lights_rendered@[2]
                })
                &&& (forall|i: int|
                    0 <= i < old(self).lights_rendered@.len() && i != 1 && i != 2
                        ==> final(self).lights_rendered@[i] == old(self).lights_rendered@[i])
            },
    {
        if self.lights_rendered.len() < 3 {
            return Err(RenderError::IndexOutOfRange);
        }
        let w2 = 2 * self.width;
        let x1 = self.lights_rendered[1].x + 7 * FX_ONE;
        let x1 = if x1 > w2 {
            -w2
        } else {
            x1
        };
        self.lights_rendered[1].x = x1;
        let x2 = self.lights_rendered[2].x - 3 * FX_ONE;
        let x2 = if x2 < -w2 {
            w2
        } else {
            x2
        };
        self.lights_rendered[2].x = x2;
        Ok(())
    }
}

} // verus!
