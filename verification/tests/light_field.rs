use lightfield::light_map::{cell_brightness, LightMap};
use lightfield::world::{LightObject, World, FX_ONE};

const FX: i64 = FX_ONE;

fn single_light(brightness: (u16, u16, u16), size_units: i64, range_units: i64) -> Vec<LightObject> {
    vec![LightObject::new(
        0,
        0,
        brightness,
        size_units * FX,
        range_units * FX,
    )]
}

#[test]
fn falloff_full_brightness_inside_core() {
    let lights = single_light((50000, 50000, 50000), 50, 50);
    for dist in [0i64, 10, 49, 50] {
        assert_eq!(
            cell_brightness(&lights, dist * FX, 0),
            (50000, 50000, 50000),
            "distance {dist}"
        );
    }
}

#[test]
fn falloff_exact_ring_values() {
    let lights = single_light((50000, 50000, 50000), 50, 50);
    assert_eq!(cell_brightness(&lights, 51 * FX, 0), (48662, 48662, 48662));
    assert_eq!(cell_brightness(&lights, 60 * FX, 0), (36409, 36409, 36409));
    assert_eq!(cell_brightness(&lights, 75 * FX, 0), (17013, 17013, 17013));
    assert_eq!(cell_brightness(&lights, 90 * FX, 0), (3208, 3208, 3208));
    assert_eq!(cell_brightness(&lights, 99 * FX, 0), (35, 35, 35));
}

#[test]
fn falloff_monotone_and_zero_beyond_reach() {
    let lights = single_light((50000, 50000, 50000), 50, 50);
    let mut last = u16::MAX;
    for dist in 0..=130i64 {
        let (r, g, b) = cell_brightness(&lights, dist * FX, 0);
        assert_eq!(r, g);
        assert_eq!(g, b);
        assert!(r <= last, "brightness increased at distance {dist}");
        if dist >= 100 {
            assert_eq!(r, 0, "light must be dark at distance {dist}");
        }
        last = r;
    }
}

#[test]
fn falloff_vertical_axis_matches_horizontal() {
    let lights = single_light((1000, 2000, 3000), 25, 75);
    for dist in [0i64, 30, 60, 99, 100] {
        assert_eq!(
            cell_brightness(&lights, dist * FX, 0),
            cell_brightness(&lights, 0, dist * FX)
        );
    }
}

#[test]
fn accumulation_saturates_at_channel_max() {
    let mut lights = single_light((40000, 40000, 40000), 50, 50);
    lights.push(LightObject::new(0, 0, (40000, 40000, 40000), 50 * FX, 50 * FX));
    assert_eq!(cell_brightness(&lights, 0, 0), (65535, 65535, 65535));
}

#[test]
fn accumulation_adds_exactly_below_the_cap() {
    let mut lights = single_light((20000, 100, 7), 50, 50);
    lights.push(LightObject::new(0, 0, (20000, 100, 7), 50 * FX, 50 * FX));
    lights.push(LightObject::new(0, 0, (20000, 100, 7), 50 * FX, 50 * FX));
    assert_eq!(cell_brightness(&lights, 0, 0), (60000, 300, 21));
}

#[test]
fn accumulation_never_cancels() {
    // a second light can only brighten, never darken
    let one = single_light((3000, 3000, 3000), 50, 50);
    let mut two = one.clone();
    two.push(LightObject::new(60 * FX, 0, (500, 500, 500), 10 * FX, 40 * FX));
    for dist in 0..=120i64 {
        let (r1, _, _) = cell_brightness(&one, dist * FX, 0);
        let (r2, _, _) = cell_brightness(&two, dist * FX, 0);
        assert!(r2 >= r1, "light cancelled at distance {dist}");
    }
}

#[test]
fn light_map_rejects_degenerate_grids() {
    assert!(LightMap::new(10, 10, 0).is_err());
    assert!(LightMap::new(3, 10, 2).is_err());
    assert!(LightMap::new(10, 2, 2).is_err());
    assert!(LightMap::new(10, 10, 2).is_ok());
}

#[test]
fn scenario_world_grid_core_and_edge() {
    // world 1600/9 x 100, one light at the origin, size 50, range 50
    let mut world = World::new(1600 * FX / 9, 100 * FX).unwrap();
    world.add_light(0, 0, (50000, 50000, 50000), 50 * FX, 50 * FX);
    // a 10x10 screen downsampled by 2 gives a 5x5 grid whose center cell
    // sits exactly at world (0, 0) and whose bottom-center cell sits at
    // world (0, 100), exactly at size + range
    let mut map = LightMap::new(10, 10, 2).unwrap();
    map.calculate(&world, 10, 10);
    assert_eq!(map.width, 5);
    assert_eq!(map.height, 5);
    assert_eq!(map.data[2 * 5 + 2], (50000, 50000, 50000));
    assert_eq!(map.data[4 * 5 + 2], (0, 0, 0));
}

#[test]
fn calculate_fills_every_cell() {
    let mut world = World::new(100 * FX, 100 * FX).unwrap();
    world.add_light(0, 0, (60000, 60000, 60000), 200 * FX, 100 * FX);
    let mut map = LightMap::new(8, 6, 2).unwrap();
    map.calculate(&world, 8, 6);
    assert_eq!(map.data.len(), 4 * 3);
    // the light's core covers the whole world, so every cell is lit in full
    for cell in &map.data {
        assert_eq!(*cell, (60000, 60000, 60000));
    }
}
