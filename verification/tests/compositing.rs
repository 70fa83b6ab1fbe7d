use lightfield::layer::Layer;
use lightfield::pixel::{blend_pixel, Pixel};
use lightfield::render_joiner::{join, multiply_factor};
use lightfield::renderer::WorldRenderer;
use lightfield::world::{World, FX_ONE};

#[test]
fn multiply_factor_exact_values() {
    assert_eq!(multiply_factor(200, 32768), 100);
    assert_eq!(multiply_factor(255, 65535), 254);
    assert_eq!(multiply_factor(1, 65535), 0);
    assert_eq!(multiply_factor(0, 65535), 0);
    assert_eq!(multiply_factor(255, 0), 0);
    assert_eq!(multiply_factor(128, 65535), 127);
}

#[test]
fn blend_transparent_keeps_destination() {
    assert_eq!(blend_pixel(&Pixel::Transparent, (12, 34, 56)), (12, 34, 56));
}

#[test]
fn blend_opaque_overwrites_destination() {
    let p = Pixel::Opaque { r: 1, g: 2, b: 3 };
    assert_eq!(blend_pixel(&p, (12, 34, 56)), (1, 2, 3));
}

#[test]
fn blend_semi_transparent_mixes_channels() {
    let p = Pixel::SemiTransparent { r: 200, g: 60, b: 0, a: 128 };
    assert_eq!(blend_pixel(&p, (100, 100, 100)), (150, 80, 50));
}

#[test]
fn transparent_layer_leaves_buffer_unchanged() {
    let layer = Layer::new(1, 1, 3, 3, 6, 5);
    let mut buffer: Vec<(u8, u8, u8)> = (0..30).map(|i| (i as u8, 2 * i as u8, 99)).collect();
    let before = buffer.clone();
    layer.draw_onto(&mut buffer, 6, 5);
    assert_eq!(buffer, before);
}

#[test]
fn drifted_layer_is_clipped_at_the_edges() {
    let mut layer = Layer::new(2, 2, 3, 3, 4, 4);
    for row in layer.pixel_data.iter_mut() {
        for px in row.iter_mut() {
            *px = Pixel::Opaque { r: 9, g: 9, b: 9 };
        }
    }
    let mut buffer = vec![(0u8, 0u8, 0u8); 16];
    layer.draw_onto(&mut buffer, 4, 4);
    for y in 0..4usize {
        for x in 0..4usize {
            let expected = if x >= 2 && y >= 2 { (9, 9, 9) } else { (0, 0, 0) };
            assert_eq!(buffer[y * 4 + x], expected, "pixel ({x}, {y})");
        }
    }
}

#[test]
fn join_at_full_light_reproduces_objects_within_one() {
    let world = World::new(100 * FX_ONE, 100 * FX_ONE).unwrap();
    let mut renderer = WorldRenderer::new(world, 8, 6).unwrap();
    renderer.lights_renderer.data = vec![(65535, 65535, 65535); 4 * 3];
    for (i, px) in renderer.objects_renderer.buffer.iter_mut().enumerate() {
        *px = (i as u8, (3 * i) as u8, 255 - i as u8);
    }
    let mut out = vec![0u8; 4 * 8 * 6];
    join(&mut out, &renderer);
    for p in 0..(8 * 6usize) {
        let obj = renderer.objects_renderer.buffer[p];
        for (k, channel) in [obj.0, obj.1, obj.2].into_iter().enumerate() {
            let got = out[4 * p + k];
            let expected = channel.saturating_sub(1);
            assert_eq!(got, expected, "pixel {p} channel {k}");
        }
        assert_eq!(out[4 * p + 3], 255, "alpha at pixel {p}");
    }
}

#[test]
fn join_at_half_light_halves_objects() {
    let world = World::new(100 * FX_ONE, 100 * FX_ONE).unwrap();
    let mut renderer = WorldRenderer::new(world, 4, 4).unwrap();
    renderer.lights_renderer.data = vec![(32768, 32768, 32768); 2 * 2];
    for px in renderer.objects_renderer.buffer.iter_mut() {
        *px = (200, 100, 50);
    }
    let mut out = vec![0u8; 4 * 4 * 4];
    join(&mut out, &renderer);
    for p in 0..16usize {
        assert_eq!(&out[4 * p..4 * p + 4], &[100, 50, 25, 255]);
    }
}

#[test]
fn render_with_no_lights_is_black_and_opaque() {
    let world = World::new(100 * FX_ONE, 100 * FX_ONE).unwrap();
    let mut renderer = WorldRenderer::new(world, 4, 4).unwrap();
    for px in renderer.objects_renderer.buffer.iter_mut() {
        *px = (255, 255, 255);
    }
    let mut frame = vec![7u8; 4 * 4 * 4];
    renderer.render(&mut frame, 0).unwrap();
    for p in 0..16usize {
        assert_eq!(&frame[4 * p..4 * p + 4], &[0, 0, 0, 255]);
    }
}

#[test]
fn render_full_pipeline_exact_values() {
    let mut world = World::new(100 * FX_ONE, 100 * FX_ONE).unwrap();
    // the light's core covers the whole world, so every grid cell carries
    // exactly the light's brightness
    world.add_light(0, 0, (32768, 65535, 16384), 200 * FX_ONE, 10 * FX_ONE);
    let rect = lightfield::objects::WorldObjectData::Rectangle {
        color: Pixel::Opaque { r: 200, g: 255, b: 64 },
    };
    world.add_object_absolute(rect, 0, 0, 4, 4, 4, 4).unwrap();
    let mut renderer = WorldRenderer::new(world, 4, 4).unwrap();
    renderer.init();
    let mut frame = vec![0u8; 4 * 4 * 4];
    renderer.render(&mut frame, 0).unwrap();
    for p in 0..16usize {
        // 200 * 0.5, 255 * (1 - 1/65536), 64 * 0.25, opaque alpha
        assert_eq!(&frame[4 * p..4 * p + 4], &[100, 254, 16, 255], "pixel {p}");
    }
}

#[test]
fn render_rejects_a_misfitting_frame_buffer() {
    let world = World::new(100 * FX_ONE, 100 * FX_ONE).unwrap();
    let mut renderer = WorldRenderer::new(world, 4, 4).unwrap();
    let mut frame = vec![7u8; 10];
    let r = renderer.render(&mut frame, 0);
    assert_eq!(r, Err(lightfield::error::RenderError::InvalidDimensions));
    assert_eq!(frame, vec![7u8; 10]);
}

#[test]
fn resize_reallocates_both_buffers() {
    let world = World::new(100 * FX_ONE, 100 * FX_ONE).unwrap();
    let mut renderer = WorldRenderer::new(world, 4, 4).unwrap();
    for px in renderer.objects_renderer.buffer.iter_mut() {
        *px = (9, 9, 9);
    }
    renderer.resize(8, 6).unwrap();
    assert_eq!(renderer.width, 8);
    assert_eq!(renderer.height, 6);
    assert_eq!(renderer.lights_renderer.width, 4);
    assert_eq!(renderer.lights_renderer.height, 3);
    assert_eq!(renderer.objects_renderer.buffer, vec![(0, 0, 0); 8 * 6]);
    assert_eq!(renderer.lights_renderer.data, vec![(0, 0, 0); 4 * 3]);
}

#[test]
fn resize_to_a_degenerate_surface_is_rejected() {
    let world = World::new(100 * FX_ONE, 100 * FX_ONE).unwrap();
    let mut renderer = WorldRenderer::new(world, 4, 4).unwrap();
    let r = renderer.resize(3, 6);
    assert_eq!(r, Err(lightfield::error::RenderError::InvalidDimensions));
    assert_eq!(renderer.width, 4);
    assert_eq!(renderer.height, 4);
}

#[test]
fn renderer_rejects_a_screen_too_small_for_the_grid() {
    let world = World::new(100 * FX_ONE, 100 * FX_ONE).unwrap();
    assert!(WorldRenderer::new(world, 3, 100).is_err());
    let world = World::new(100 * FX_ONE, 100 * FX_ONE).unwrap();
    assert!(WorldRenderer::new(world, 100, 2).is_err());
    let world = World::new(100 * FX_ONE, 100 * FX_ONE).unwrap();
    assert!(WorldRenderer::new(world, 4, 4).is_ok());
}
