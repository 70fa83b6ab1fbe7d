//! A CPU-side frame renderer: rasterized scene objects are combined with a
//! downsampled point-light brightness grid into a full-resolution RGBA frame.
//!
//! The scene (`world`), the per-object layers (`layer`, `objects`), the
//! light field (`light_map`), the object pass (`object_renderer`) and the
//! compositor (`render_joiner`) are driven frame by frame by the renderer
//! (`renderer`). The host supplies screen dimensions, pointer events and
//! elapsed time as plain values and displays the returned RGBA buffer.

pub mod arith;
pub mod error;
pub mod layer;
pub mod light_map;
pub mod object_renderer;
pub mod objects;
pub mod pixel;
pub mod render_joiner;
pub mod renderer;
pub mod world;
