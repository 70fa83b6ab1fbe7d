use lightfield::error::RenderError;
use lightfield::objects::{WorldObject, WorldObjectData};
use lightfield::pixel::Pixel;
use lightfield::renderer::{Interactions, WorldRenderer};
use lightfield::world::{World, FX_ONE};

const FX: i64 = FX_ONE;

fn demo_world() -> World {
    // the demo scene's world: 1600/9 wide, 100 high
    let mut world = World::new(1600 * FX / 9, 100 * FX).unwrap();
    world.add_light(0, 0, (50000, 50000, 50000), 50 * FX, 50 * FX);
    world.add_light(0, -100 * FX, (0, 50000, 50000), 25 * FX, 50 * FX);
    world.add_light(0, 100 * FX, (50000, 20000, 20000), 25 * FX, 75 * FX);
    world
}

#[test]
fn world_rejects_empty_extents() {
    assert_eq!(World::new(0, 100 * FX).err(), Some(RenderError::InvalidDimensions));
    assert_eq!(World::new(100 * FX, 0).err(), Some(RenderError::InvalidDimensions));
    assert_eq!(World::new(-5, 100 * FX).err(), Some(RenderError::InvalidDimensions));
    assert!(World::new(100 * FX, 100 * FX).is_ok());
}

#[test]
fn pointer_at_viewport_center_maps_light_to_origin() {
    let mut renderer = WorldRenderer::new(demo_world(), 8, 6).unwrap();
    let ev = Interactions::MouseMove { button: 0, x: 400, y: 300 };
    renderer.pointer_event(ev, 800, 600).unwrap();
    assert_eq!(renderer.world.lights_rendered[0].x, 0);
    assert_eq!(renderer.world.lights_rendered[0].y, 0);
}

#[test]
fn pointer_at_viewport_corner_maps_light_to_world_edge() {
    let mut renderer = WorldRenderer::new(demo_world(), 8, 6).unwrap();
    let width = renderer.world.width;
    let height = renderer.world.height;
    let ev = Interactions::MouseMove { button: 0, x: 800, y: 0 };
    renderer.pointer_event(ev, 800, 600).unwrap();
    assert_eq!(renderer.world.lights_rendered[0].x, width);
    assert_eq!(renderer.world.lights_rendered[0].y, -height);
}

#[test]
fn pointer_down_changes_nothing() {
    let mut renderer = WorldRenderer::new(demo_world(), 8, 6).unwrap();
    let before = renderer.world.lights_rendered.clone();
    let ev = Interactions::MouseDown { button: 0, x: 10, y: 10 };
    renderer.pointer_event(ev, 800, 600).unwrap();
    assert_eq!(renderer.world.lights_rendered, before);
}

#[test]
fn pointer_move_without_lights_is_an_error() {
    let world = World::new(100 * FX, 100 * FX).unwrap();
    let mut renderer = WorldRenderer::new(world, 8, 6).unwrap();
    let ev = Interactions::MouseMove { button: 0, x: 1, y: 1 };
    assert_eq!(renderer.pointer_event(ev, 800, 600), Err(RenderError::IndexOutOfRange));
}

#[test]
fn pointer_on_empty_viewport_is_an_error() {
    let mut renderer = WorldRenderer::new(demo_world(), 8, 6).unwrap();
    let ev = Interactions::MouseDown { button: 0, x: 0, y: 0 };
    assert_eq!(renderer.pointer_event(ev, 0, 600), Err(RenderError::InvalidDimensions));
}

#[test]
fn autonomous_lights_drift_each_frame() {
    let mut world = demo_world();
    world.drift_lights().unwrap();
    assert_eq!(world.lights_rendered[0].x, 0);
    assert_eq!(world.lights_rendered[1].x, 7 * FX);
    assert_eq!(world.lights_rendered[2].x, -3 * FX);
}

#[test]
fn drifting_lights_wrap_at_twice_the_world_width() {
    let mut world = demo_world();
    let w2 = 2 * world.width;
    world.lights_rendered[1].x = w2 - FX;  // one unit from the wrap edge
    world.lights_rendered[2].x = -w2 + FX;
    world.drift_lights().unwrap();
    assert_eq!(world.lights_rendered[1].x, -w2);
    assert_eq!(world.lights_rendered[2].x, w2);
}

#[test]
fn drifting_fewer_than_three_lights_is_an_error() {
    let mut world = World::new(100 * FX, 100 * FX).unwrap();
    world.add_light(0, 0, (1, 1, 1), FX, FX);
    assert_eq!(world.drift_lights(), Err(RenderError::IndexOutOfRange));
}

#[test]
fn image_with_empty_axis_is_rejected() {
    let data = WorldObjectData::Image { rgba: vec![], width: 0, height: 1 };
    assert_eq!(
        WorldObject::new_abs(data, 0, 0, 2, 2, 4, 4).err(),
        Some(RenderError::InvalidDimensions)
    );
}

#[test]
fn image_with_misfitting_bytes_is_rejected() {
    let data = WorldObjectData::Image { rgba: vec![0; 7], width: 1, height: 1 };
    assert_eq!(
        WorldObject::new_abs(data, 0, 0, 2, 2, 4, 4).err(),
        Some(RenderError::ImageDecodeMismatch)
    );
}

#[test]
fn new_object_layer_starts_transparent() {
    let data = WorldObjectData::Rectangle { color: Pixel::Opaque { r: 1, g: 2, b: 3 } };
    let o = WorldObject::new_abs(data, 1, 2, 3, 4, 10, 10).unwrap();
    assert_eq!(o.state.layer.pixel_data.len(), 4);
    for row in &o.state.layer.pixel_data {
        assert_eq!(row.len(), 3);
        for px in row {
            assert_eq!(*px, Pixel::Transparent);
        }
    }
}

#[test]
fn rectangle_rasterizes_to_a_flat_fill() {
    let color = Pixel::Opaque { r: 10, g: 20, b: 30 };
    let data = WorldObjectData::Rectangle { color };
    let mut o = WorldObject::new_abs(data, 0, 0, 3, 2, 8, 8).unwrap();
    o.draw_init();
    for row in &o.state.layer.pixel_data {
        for px in row {
            assert_eq!(*px, color);
        }
    }
}

#[test]
fn image_rasterizes_nearest_neighbor() {
    // a 2x1 source image: left pixel red-ish, right pixel blue-ish
    let rgba = vec![200, 0, 0, 255, 0, 0, 200, 255];
    let data = WorldObjectData::Image { rgba, width: 2, height: 1 };
    let mut o = WorldObject::new_abs(data, 0, 0, 4, 2, 8, 8).unwrap();
    o.draw_init();
    for y in 0..2usize {
        for x in 0..4usize {
            let expected = if x < 2 {
                Pixel::Opaque { r: 200, g: 0, b: 0 }
            } else {
                Pixel::Opaque { r: 0, g: 0, b: 200 }
            };
            assert_eq!(o.state.layer.pixel_data[y][x], expected, "cell ({x}, {y})");
        }
    }
}

#[test]
fn image_objects_drift_and_rectangles_stay() {
    let rgba = vec![1, 2, 3, 4];
    let img = WorldObjectData::Image { rgba, width: 1, height: 1 };
    let mut o = WorldObject::new_abs(img, 5, 0, 1, 1, 8, 8).unwrap();
    o.draw_again(1234);
    // 1234 ms -> 123 steps -> 23 within the 100-pixel band
    assert_eq!(o.state.layer.pos_x, 5 + 23);
    assert_eq!(o.state.layer.pos_x_start, 5);

    let rect = WorldObjectData::Rectangle { color: Pixel::Transparent };
    let mut o = WorldObject::new_abs(rect, 5, 0, 1, 1, 8, 8).unwrap();
    o.draw_again(1234);
    assert_eq!(o.state.layer.pos_x, 5);
}

#[test]
fn relative_placement_rounds_to_pixels() {
    let mut world = World::new(100 * FX, 100 * FX).unwrap();
    let data = WorldObjectData::Rectangle { color: Pixel::Transparent };
    // fractions 0.1, 0.1, 0.8, 0.8 on a 100 x 50 screen
    let frac = 65536 / 10;
    world
        .add_object_relative(data, frac, frac, 8 * frac, 8 * frac, 100, 50)
        .unwrap();
    let layer = &world.objects_rendered[0].state.layer;
    assert_eq!(layer.pos_x, 10);
    assert_eq!(layer.pos_y, 5);
    assert_eq!(layer.pos_w, 80);
    assert_eq!(layer.pos_h, 40);
}

#[test]
fn later_objects_paint_over_earlier_ones() {
    let mut world = World::new(100 * FX, 100 * FX).unwrap();
    let red = WorldObjectData::Rectangle { color: Pixel::Opaque { r: 255, g: 0, b: 0 } };
    let blue = WorldObjectData::Rectangle { color: Pixel::Opaque { r: 0, g: 0, b: 255 } };
    world.add_object_absolute(red, 0, 0, 4, 4, 4, 4).unwrap();
    world.add_object_absolute(blue, 2, 0, 2, 4, 4, 4).unwrap();
    let mut renderer =
        lightfield::object_renderer::ObjectNoLightRenderer::new(4, 4);
    renderer.draw_init(&mut world);
    renderer.draw_all(&mut world, 0);
    for y in 0..4usize {
        for x in 0..4usize {
            let expected = if x >= 2 { (0, 0, 255) } else { (255, 0, 0) };
            assert_eq!(renderer.buffer[y * 4 + x], expected, "pixel ({x}, {y})");
        }
    }
}
