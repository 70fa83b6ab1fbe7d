//! The light field: a downsampled grid of accumulated RGB brightness,
//! recomputed every frame from the scene's point lights with a radial
//! falloff, accumulated per channel with saturation.
//!
//! All falloff arithmetic is integer fixed-point: factors are scaled by
//! 65536, with 65536 standing for a full-strength contribution.

use vstd::prelude::*;

use crate::arith::{lemma_div_at_most, lemma_div_below};
use crate::error::RenderError;
use crate::layer::MAX_DIM;
use crate::world::{LightObject, World, MAX_EXTENT, MAX_POS};

verus! {

/// Squared radius of a light's full-intensity core.
pub open spec fn light_size2(l: LightObject) -> int {
    l.size * l.size
}

/// Squared radius of a light's total reach, `size + range`.
pub open spec fn light_reach2(l: LightObject) -> int {
    (l.size + l.range) * (l.size + l.range)
}

/// Squared distance from a light to the point `(cx, cy)`.
pub open spec fn light_dist2(l: LightObject, cx: int, cy: int) -> int {
    (l.x - cx) * (l.x - cx) + (l.y - cy) * (l.y - cy)
}

/// The core-to-reach ratio `size2 / reach2`, scaled by 65536.
pub open spec fn ring_fs(size2: int, reach2: int) -> int {
    size2 * 65536 / reach2
}

/// The distance ratio `d2 / reach2`, scaled by 65536.
pub open spec fn ring_f(reach2: int, d2: int) -> int {
    d2 * 65536 / reach2
}

/// The linear falloff across the outer ring, scaled by 65536: how far the
/// point sits from the outer edge, relative to the width of the ring.
pub open spec fn ring_factor(size2: int, reach2: int, d2: int) -> int {
    (65536 - ring_f(reach2, d2)) * 65536 / (65536 - ring_fs(size2, reach2))
}

/// The falloff factor, scaled by 65536: zero at or beyond the reach, full
/// inside the core, and the squared ring falloff in between.
pub open spec fn falloff_q(size2: int, reach2: int, d2: int) -> int {
    if d2 >= reach2 {
        0
    } else if d2 <= size2 {
        65536
    } else {
        ring_factor(size2, reach2, d2) * ring_factor(size2, reach2, d2) / 65536
    }
}

/// The falloff factor of a light at the point `(cx, cy)`.
pub open spec fn light_q(l: LightObject, cx: int, cy: int) -> int {
    falloff_q(light_size2(l), light_reach2(l), light_dist2(l, cx, cy))
}

/// One channel's contribution: the brightness scaled by the falloff factor,
/// truncating fixed-point multiplication.
pub open spec fn chan_contrib(b: u16, q: int) -> int {
    b * q / 65536
}

/// A light's contribution to all three channels at the point `(cx, cy)`.
pub open spec fn light_contrib(l: LightObject, cx: int, cy: int) -> (int, int, int) {
    (
        chan_contrib(l.brightness.0, light_q(l, cx, cy)),
        chan_contrib(l.brightness.1, light_q(l, cx, cy)),
        chan_contrib(l.brightness.2, light_q(l, cx, cy)),
    )
}

/// The exact per-channel sums of all lights' contributions at `(cx, cy)`,
/// before saturation.
pub open spec fn sum_contrib(lights: Seq<LightObject>, cx: int, cy: int) -> (int, int, int)
    decreases lights.len(),
{
    if lights.len() == 0 {
        (0, 0, 0)
    } else {
        let rest = sum_contrib(lights.drop_last(), cx, cy);
        let c = light_contrib(lights.last(), cx, cy);
        (rest.0 + c.0, rest.1 + c.1, rest.2 + c.2)
    }
}

/// Saturates a nonnegative sum at the 16-bit maximum.
pub open spec fn clamp_u16(n: int) -> u16 {
    if n >= 65535 {
        65535u16
    } else {
        n as u16
    }
}

/// What one light-grid cell holds: the per-channel sums of all lights'
/// contributions at the cell's world position, each saturated at 65535.
pub open spec fn cell_value(lights: Seq<LightObject>, cx: int, cy: int) -> (u16, u16, u16) {
    let s = sum_contrib(lights, cx, cy);
    (clamp_u16(s.0), clamp_u16(s.1), clamp_u16(s.2))
}

/// The world-space coordinate of grid index `g` on an axis of `n` cells over
/// a world half-extent `extent`: the real-number map `(2g/(n-1) - 1) * extent`
/// evaluated in fixed point, truncating toward zero.
pub open spec fn grid_to_world(g: int, n: int, extent: int) -> int {
    if 2 * g >= n - 1 {
        extent * (2 * g - (n - 1)) / (n - 1)
    } else {
        -(extent * ((n - 1) - 2 * g) / (n - 1))
    }
}

/// Bounds on the pieces of the ring falloff when the point lies strictly
/// inside the ring.
pub proof fn lemma_ring_bounds(size2: int, reach2: int, d2: int)
    requires
        0 <= size2,
        size2 < d2,
        d2 < reach2,
    ensures
        0 <= ring_fs(size2, reach2) <= ring_f(reach2, d2),
        ring_f(reach2, d2) <= 65535,
        0 <= ring_factor(size2, reach2, d2) <= 65536,
        0 <= falloff_q(size2, reach2, d2) <= 65536,
{
    let fs = ring_fs(size2, reach2);
    let f = ring_f(reach2, d2);
    assert(size2 * 65536 <= d2 * 65536 && 0 <= size2 * 65536 && d2 * 65536 < 65536 * reach2)
        by (nonlinear_arith)
        requires
            0 <= size2 && size2 < d2 && d2 < reach2,
    ;
    vstd::arithmetic::div_mod::lemma_div_is_ordered(size2 * 65536, d2 * 65536, reach2);
    vstd::arithmetic::div_mod::lemma_div_pos_is_pos(size2 * 65536, reach2);
    lemma_div_below(d2 * 65536, reach2, 65536);
    let ring = ring_factor(size2, reach2, d2);
    assert((65536 - f) * 65536 <= 65536 * (65536 - fs) && 0 <= (65536 - f) * 65536)
        by (nonlinear_arith)
        requires
            0 <= fs <= f <= 65535,
    ;
    lemma_div_at_most((65536 - f) * 65536, 65536 - fs, 65536);
    vstd::arithmetic::div_mod::lemma_div_pos_is_pos((65536 - f) * 65536, 65536 - fs);
    assert(ring * ring <= 65536 * 65536 && 0 <= ring * ring) by (nonlinear_arith)
        requires
            0 <= ring <= 65536,
    ;
    lemma_div_at_most(ring * ring, 65536, 65536);
    vstd::arithmetic::div_mod::lemma_div_pos_is_pos(ring * ring, 65536);
}

/// The falloff factor always lies between 0 and 65536.
pub proof fn lemma_falloff_q_bounds(size2: int, reach2: int, d2: int)
    requires
        0 <= size2,
        0 <= d2,
    ensures
        0 <= falloff_q(size2, reach2, d2) <= 65536,
{
    if d2 >= reach2 {
    } else if d2 <= size2 {
    } else {
        lemma_ring_bounds(size2, reach2, d2);
    }
}

/// Falloff monotonicity in the squared distance: moving a point farther from
/// the light never increases the falloff factor.
pub proof fn lemma_falloff_q_monotonic(size2: int, reach2: int, d2a: int, d2b: int)
    requires
        0 <= size2 <= reach2,
        0 <= d2a <= d2b,
    ensures
        falloff_q(size2, reach2, d2b) <= falloff_q(size2, reach2, d2a),
{
    lemma_falloff_q_bounds(size2, reach2, d2a);
    lemma_falloff_q_bounds(size2, reach2, d2b);
    if d2b >= reach2 {
    } else if d2a <= size2 {
    } else {
        lemma_ring_bounds(size2, reach2, d2a);
        lemma_ring_bounds(size2, reach2, d2b);
        let fa = ring_f(reach2, d2a);
        let fb = ring_f(reach2, d2b);
        let fs = ring_fs(size2, reach2);
        assert(d2a * 65536 <= d2b * 65536 && 0 <= d2a * 65536) by (nonlinear_arith)
            requires
                0 <= d2a <= d2b,
        ;
        vstd::arithmetic::div_mod::lemma_div_is_ordered(d2a * 65536, d2b * 65536, reach2);
        assert((65536 - fb) * 65536 <= (65536 - fa) * 65536 && 0 <= (65536 - fb) * 65536)
            by (nonlinear_arith)
            requires
                fa <= fb <= 65535,
        ;
        vstd::arithmetic::div_mod::lemma_div_is_ordered(
            (65536 - fb) * 65536,
            (65536 - fa) * 65536,
            65536 - fs,
        );
        let ra = ring_factor(size2, reach2, d2a);
        let rb = ring_factor(size2, reach2, d2b);
        assert(rb * rb <= ra * ra && 0 <= rb * rb) by (nonlinear_arith)
            requires
                0 <= rb <= ra,
        ;
        vstd::arithmetic::div_mod::lemma_div_is_ordered(rb * rb, ra * ra, 65536);
    }
}

/// A channel contribution is nonnegative and never exceeds the light's
/// brightness on that channel.
pub proof fn lemma_chan_contrib_bounds(b: u16, q: int)
    requires
        0 <= q <= 65536,
    ensures
        0 <= chan_contrib(b, q) <= b,
{
    assert(0 <= b * q && b * q <= b * 65536) by (nonlinear_arith)
        requires
            0 <= q <= 65536 && 0 <= b,
    ;
    vstd::arithmetic::div_mod::lemma_div_pos_is_pos(b * q, 65536);
    lemma_div_at_most(b * q, 65536, b as int);
}

/// *Falloff monotonicity.* For a single light, the contribution on every
/// channel is non-increasing as the squared distance of the sampled point
/// grows, and it is exactly zero at or beyond `size + range`.
pub proof fn lemma_light_falloff_monotonic(
    l: LightObject,
    cxa: int,
    cya: int,
    cxb: int,
    cyb: int,
)
    requires
        l.wf(),
        light_dist2(l, cxa, cya) <= light_dist2(l, cxb, cyb),
    ensures
        light_contrib(l, cxb, cyb).0 <= light_contrib(l, cxa, cya).0,
        light_contrib(l, cxb, cyb).1 <= light_contrib(l, cxa, cya).1,
        light_contrib(l, cxb, cyb).2 <= light_contrib(l, cxa, cya).2,
        light_dist2(l, cxb, cyb) >= light_reach2(l) ==> light_contrib(l, cxb, cyb) == (
            0int,
            0int,
            0int,
        ),
{
    assert(0 <= light_size2(l) && light_size2(l) <= light_reach2(l) && 0 <= light_dist2(l, cxa, cya)
        && 0 <= light_dist2(l, cxb, cyb)) by (nonlinear_arith)
        requires
            0 <= l.size && 0 <= l.range,
    ;
    lemma_falloff_q_monotonic(
        light_size2(l),
        light_reach2(l),
        light_dist2(l, cxa, cya),
        light_dist2(l, cxb, cyb),
    );
    let qa = light_q(l, cxa, cya);
    let qb = light_q(l, cxb, cyb);
    lemma_falloff_q_bounds(light_size2(l), light_reach2(l), light_dist2(l, cxa, cya));
    lemma_falloff_q_bounds(light_size2(l), light_reach2(l), light_dist2(l, cxb, cyb));
    lemma_chan_mono(l.brightness.0, qb, qa);
    lemma_chan_mono(l.brightness.1, qb, qa);
    lemma_chan_mono(l.brightness.2, qb, qa);
    if light_dist2(l, cxb, cyb) >= light_reach2(l) {
        assert(qb == 0);
        assert(l.brightness.0 * 0 == 0) by (nonlinear_arith);
        assert(l.brightness.1 * 0 == 0) by (nonlinear_arith);
        assert(l.brightness.2 * 0 == 0) by (nonlinear_arith);
    }
}

/// A smaller falloff factor never yields a larger channel contribution.
proof fn lemma_chan_mono(b: u16, qlo: int, qhi: int)
    requires
        0 <= qlo <= qhi,
    ensures
        chan_contrib(b, qlo) <= chan_contrib(b, qhi),
{
    assert(b * qlo <= b * qhi && 0 <= b * qlo) by (nonlinear_arith)
        requires
            0 <= qlo <= qhi && 0 <= b,
    ;
    vstd::arithmetic::div_mod::lemma_div_is_ordered(b * qlo, b * qhi, 65536);
}

/// Splitting off the light at position `i`: the sum over the first `i + 1`
/// lights is the sum over the first `i` plus that light's contribution.
pub proof fn lemma_sum_contrib_step(lights: Seq<LightObject>, cx: int, cy: int, i: int)
    requires
        0 <= i < lights.len(),
    ensures
        sum_contrib(lights.take(i + 1), cx, cy).0 == sum_contrib(lights.take(i), cx, cy).0
            + light_contrib(lights[i], cx, cy).0,
        sum_contrib(lights.take(i + 1), cx, cy).1 == sum_contrib(lights.take(i), cx, cy).1
            + light_contrib(lights[i], cx, cy).1,
        sum_contrib(lights.take(i + 1), cx, cy).2 == sum_contrib(lights.take(i), cx, cy).2
            + light_contrib(lights[i], cx, cy).2,
{
    assert(lights.take(i + 1).drop_last() =~= lights.take(i));
    assert(lights.take(i + 1).last() == lights[i]);
}

/// Every component of the contribution sum is nonnegative once every light is
/// well formed.
pub proof fn lemma_sum_contrib_nonneg(lights: Seq<LightObject>, cx: int, cy: int)
    requires
        forall|i: int| 0 <= i < lights.len() ==> (#[trigger] lights[i]).wf(),
    ensures
        0 <= sum_contrib(lights, cx, cy).0,
        0 <= sum_contrib(lights, cx, cy).1,
        0 <= sum_contrib(lights, cx, cy).2,
    decreases lights.len(),
{
    if lights.len() == 0 {
    } else {
        let l = lights.last();
        lemma_sum_contrib_nonneg(lights.drop_last(), cx, cy);
        assert(0 <= light_size2(l) && 0 <= light_dist2(l, cx, cy)) by (nonlinear_arith)
            requires
                0 <= l.size,
        ;
        lemma_falloff_q_bounds(light_size2(l), light_reach2(l), light_dist2(l, cx, cy));
        lemma_chan_contrib_bounds(l.brightness.0, light_q(l, cx, cy));
        lemma_chan_contrib_bounds(l.brightness.1, light_q(l, cx, cy));
        lemma_chan_contrib_bounds(l.brightness.2, light_q(l, cx, cy));
    }
}

/// *Saturation.* When every light contributes the same value `v` on a
/// channel, the accumulated cell channel is exactly `min(N * v, 65535)`: the
/// sum while it fits, and exactly 65535 from the moment `N * v` reaches it.
pub proof fn lemma_saturating_accumulation(lights: Seq<LightObject>, cx: int, cy: int, v: int)
    requires
        0 <= v,
        forall|i: int| 0 <= i < lights.len() ==> (#[trigger] lights[i]).wf(),
        forall|i: int|
            0 <= i < lights.len() ==> light_contrib(#[trigger] lights[i], cx, cy) == (v, v, v),
    ensures
        cell_value(lights, cx, cy).0 <= 65535,
        cell_value(lights, cx, cy).1 <= 65535,
        cell_value(lights, cx, cy).2 <= 65535,
        lights.len() * v >= 65535 ==> cell_value(lights, cx, cy) == (65535u16, 65535u16, 65535u16),
        lights.len() * v < 65535 ==> cell_value(lights, cx, cy) == (
            clamp_u16(lights.len() * v),
            clamp_u16(lights.len() * v),
            clamp_u16(lights.len() * v),
        ) && cell_value(lights, cx, cy).0 == lights.len() * v,
{
    lemma_uniform_sum(lights, cx, cy, v);
}

/// The channel sum of `N` identical contributions `v` is `N * v`.
proof fn lemma_uniform_sum(lights: Seq<LightObject>, cx: int, cy: int, v: int)
    requires
        forall|i: int|
            0 <= i < lights.len() ==> light_contrib(#[trigger] lights[i], cx, cy) == (v, v, v),
    ensures
        sum_contrib(lights, cx, cy).0 == lights.len() * v,
        sum_contrib(lights, cx, cy).1 == lights.len() * v,
        sum_contrib(lights, cx, cy).2 == lights.len() * v,
    decreases lights.len(),
{
    if lights.len() == 0 {
    } else {
        lemma_uniform_sum(lights.drop_last(), cx, cy, v);
        assert(lights.len() * v == (lights.len() - 1) * v + v) by (nonlinear_arith);
    }
}

/// The falloff factor of one light at the point `(cx, cy)`, computed exactly
/// as `light_q` states it.
pub fn light_factor(l: &LightObject, cx: i64, cy: i64) -> (q: u32)
    requires
        l.wf(),
        -MAX_EXTENT <= cx <= MAX_EXTENT,
        -MAX_EXTENT <= cy <= MAX_EXTENT,
    ensures
        q as int == light_q(*l, cx as int, cy as int),
        q <= 65536,
{
    let ghost s2 = light_size2(*l);
    let ghost r2 = light_reach2(*l);
    let ghost dd2 = light_dist2(*l, cx as int, cy as int);
    let adx: u64 = if l.x >= cx {
        (l.x - cx) as u64
    } else {
        (cx - l.x) as u64
    };
    let ady: u64 = if l.y >= cy {
        (l.y - cy) as u64
    } else {
        (cy - l.y) as u64
    };
    let reach: u64 = (l.size + l.range) as u64;
    proof {
        assert(adx * adx == (l.x - cx) * (l.x - cx) && ady * ady == (l.y - cy) * (l.y - cy))
            by (nonlinear_arith)
            requires
                adx == (if l.x >= cx {
                    l.x - cx
                } else {
                    cx - l.x
                }) && ady == (if l.y >= cy {
                    l.y - cy
                } else {
                    cy - l.y
                }),
        ;
        assert(adx * adx <= 0x1000_0000_0000_0000_0000_0000 && ady * ady
            <= 0x1000_0000_0000_0000_0000_0000 && reach * reach <= 0x1000_0000_0000_0000_0000_0000)
            by (nonlinear_arith)
            requires
                0 <= adx <= 0x4000_0000_0000 && 0 <= ady <= 0x4000_0000_0000 && 0 <= reach
                    <= 0x4000_0000_0000,
        ;
        assert(l.size * l.size <= 0x1000_0000_0000_0000_0000_0000) by (nonlinear_arith)
            requires
                0 <= l.size <= 0x800_0000_0000,
        ;
    }
    if adx > reach || ady > reach {
        proof {
            assert(dd2 >= r2) by (nonlinear_arith)
                requires
                    dd2 == adx * adx + ady * ady && r2 == reach * reach && 0 <= reach && (adx
                        > reach || ady > reach) && 0 <= adx && 0 <= ady,
            ;
        }
        return 0;
    }
    let d2: u128 = (adx as u128) * (adx as u128) + (ady as u128) * (ady as u128);
    let reach2: u128 = (reach as u128) * (reach as u128);
    if d2 >= reach2 {
        return 0;
    }
    let size2: u128 = (l.size as u128) * (l.size as u128);
    proof {
        assert(size2 == s2) by (nonlinear_arith)
            requires
                size2 == l.size * l.size && s2 == l.size * l.size,
        ;
    }
    if d2 <= size2 {
        return 65536;
    }
    proof {
        lemma_ring_bounds(s2, r2, dd2);
    }
    let fs = size2 * 65536 / reach2;
    let f = d2 * 65536 / reach2;
    proof {
        assert(fs as int == ring_fs(s2, r2));
        assert(f as int == ring_f(r2, dd2));
    }
    let ring = (65536 - f) * 65536 / (65536 - fs);
    let q128 = ring * ring / 65536;
    proof {
        assert(ring as int == ring_factor(s2, r2, dd2));
        assert(q128 as int == falloff_q(s2, r2, dd2));
    }
    q128 as u32
}

/// One channel's contribution of a light whose falloff factor is `q`.
pub fn channel_contrib(b: u16, q: u32) -> (c: u16)
    requires
        q <= 65536,
    ensures
        c as int == chan_contrib(b, q as int),
        c <= b,
{
    proof {
        lemma_chan_contrib_bounds(b, q as int);
    }
    ((b as u64 * q as u64) / 65536) as u16
}

/// The accumulated brightness of all lights at the world point `(cx, cy)`:
/// per-channel contributions summed with saturation at 65535.
pub fn cell_brightness(lights: &Vec<LightObject>, cx: i64, cy: i64) -> (cell: (u16, u16, u16))
    requires
        forall|i: int| 0 <= i < lights@.len() ==> (#[trigger] lights@[i]).wf(),
        -MAX_EXTENT <= cx <= MAX_EXTENT,
        -MAX_EXTENT <= cy <= MAX_EXTENT,
    ensures
        cell == cell_value(lights@, cx as int, cy as int),
{
    let mut r: u16 = 0;
    let mut g: u16 = 0;
    let mut b: u16 = 0;
    let mut i: usize = 0;
    while i < lights.len()
        invariant
            i <= lights@.len(),
            forall|j: int| 0 <= j < lights@.len() ==> (#[trigger] lights@[j]).wf(),
            -MAX_EXTENT <= cx <= MAX_EXTENT,
            -MAX_EXTENT <= cy <= MAX_EXTENT,
            0 <= sum_contrib(lights@.take(i as int), cx as int, cy as int).0,
            0 <= sum_contrib(lights@.take(i as int), cx as int, cy as int).1,
            0 <= sum_contrib(lights@.take(i as int), cx as int, cy as int).2,
            r == clamp_u16(sum_contrib(lights@.take(i as int), cx as int, cy as int).0),
            g == clamp_u16(sum_contrib(lights@.take(i as int), cx as int, cy as int).1),
            b == clamp_u16(sum_contrib(lights@.take(i as int), cx as int, cy as int).2),
        decreases lights@.len() - i,
    {
        let l = &lights[i];
        let q = light_factor(l, cx, cy);
        let cr = channel_contrib(l.brightness.0, q);
        let cg = channel_contrib(l.brightness.1, q);
        let cb = channel_contrib(l.brightness.2, q);
        proof {
            lemma_sum_contrib_step(lights@, cx as int, cy as int, i as int);
            lemma_chan_contrib_bounds(l.brightness.0, q as int);
            lemma_chan_contrib_bounds(l.brightness.1, q as int);
            lemma_chan_contrib_bounds(l.brightness.2, q as int);
        }
        r = r.saturating_add(cr);
        g = g.saturating_add(cg);
        b = b.saturating_add(cb);
        i += 1;
    }
    proof {
        assert(lights@.take(lights@.len() as int) =~= lights@);
    }
    (r, g, b)
}

/// The downsampled brightness grid. `width` and `height` are the grid's own
/// dimensions (the screen divided by `inaccuracy`); `data` holds one RGB
/// accumulator per cell in row-major order.
pub struct LightMap {
    pub width: usize,
    pub height: usize,
    pub inaccuracy: usize,
    pub data: Vec<(u16, u16, u16)>,
}

impl LightMap {
    pub open spec fn wf(self) -> bool {
        &&& 2 <= self.width <= MAX_DIM
        &&& 2 <= self.height <= MAX_DIM
        &&& 1 <= self.inaccuracy
        &&& self.data@.len() == self.width * self.height
    }

    /// Builds a grid of `w / inaccuracy` by `h / inaccuracy` zeroed cells.
    /// A zero downsample factor, an out-of-range screen size or a resulting
    /// grid axis shorter than two cells is `InvalidDimensions`.
    pub fn new(w: usize, h: usize, inaccuracy: usize) -> (r: Result<LightMap, RenderError>)
        ensures
            r is Ok <==> (1 <= inaccuracy && w <= MAX_DIM && h <= MAX_DIM && w as int / (
            inaccuracy as int) >= 2 && h as int / (inaccuracy as int) >= 2),
            r is Err ==> r == Err::<LightMap, RenderError>(RenderError::InvalidDimensions),
            r matches Ok(m) ==> {
                &&& m.wf()
                &&& m.width == w as int / (inaccuracy as int)
                &&& m.height == h as int / (inaccuracy as int)
                &&& m.inaccuracy == inaccuracy
                &&& (forall|i: int| 0 <= i < m.data@.len() ==> m.data@[i] == (0u16, 0u16, 0u16))
            },
    {
        if inaccuracy == 0 || w > MAX_DIM || h > MAX_DIM {
            return Err(RenderError::InvalidDimensions);
        }
        let gw = w / inaccuracy;
        let gh = h / inaccuracy;
        if gw < 2 || gh < 2 {
            return Err(RenderError::InvalidDimensions);
        }
        proof {
            assert(w <= w * inaccuracy && h <= h * inaccuracy) by (nonlinear_arith)
                requires
                    1 <= inaccuracy && 0 <= w && 0 <= h,
            ;
            lemma_div_at_most(w as int, inaccuracy as int, w as int);
            lemma_div_at_most(h as int, inaccuracy as int, h as int);
            assert(gw * gh <= MAX_DIM * MAX_DIM && 0 <= gw * gh) by (nonlinear_arith)
                requires
                    0 <= gw <= MAX_DIM && 0 <= gh <= MAX_DIM,
            ;
        }
        let len = gw * gh;
        let mut data: Vec<(u16, u16, u16)> = Vec::new();
        let mut i: usize = 0;
        while i < len
            invariant
                i <= len,
                data@.len() == i,
                forall|j: int| 0 <= j < i ==> data@[j] == (0u16, 0u16, 0u16),
            decreases len - i,
        {
            data.push((0, 0, 0));
            i += 1;
        }
        Ok(LightMap { width: gw, height: gh, inaccuracy, data })
    }

    /// Recomputes every grid cell from the current lights: cell `(gx, gy)`
    /// receives the saturated accumulation of all lights at the cell's
    /// world-space position.
    pub fn calculate(&mut self, world: &World, _width: usize, _height: usize)
        requires
            old(self).wf(),
            world.wf(),
        ensures
            final(self).wf(),
            final(self).width == old(self).width,
            final(self).height == old(self).height,
            final(self).inaccuracy == old(self).inaccuracy,
            final(self).data@.len() == old(self).data@.len(),
            forall|gy: int, gx: int|
                0 <= gy < old(self).height && 0 <= gx < old(self).width ==> final(self).data@[gy
                    * old(self).width + gx] == cell_value(
                    world.lights_rendered@,
                    grid_to_world(gx, old(self).width as int, world.width as int),
                    grid_to_world(gy, old(self).height as int, world.height as int),
                ),
    {
        let gw = self.width;
        let gh = self.height;
        let n = self.data.len();
        let ghost lights = world.lights_rendered@;
        let ghost ww = world.width as int;
        let ghost wh = world.height as int;
        let mut index: usize = 0;
        let mut gy: usize = 0;
        while gy < gh
            invariant
                self.wf(),
                world.wf(),
                self.width == gw,
                self.height == gh,
                self.inaccuracy == old(self).inaccuracy,
                self.data@.len() == old(self).data@.len(),
                n == self.data@.len(),
                gw == old(self).width,
                gh == old(self).height,
                lights == world.lights_rendered@,
                ww == world.width as int,
                wh == world.height as int,
                gy <= gh,
                index == gy * gw,
                forall|y: int, x: int|
                    0 <= y < gy && 0 <= x < gw ==> self.data@[y * gw + x] == cell_value(
                        lights,
                        grid_to_world(x, gw as int, ww),
                        grid_to_world(y, gh as int, wh),
                    ),
            decreases gh - gy,
        {
            let cy = grid_axis_world(gy, gh, world.height);
            let mut gx: usize = 0;
            while gx < gw
                invariant
                    self.wf(),
                    world.wf(),
                    self.width == gw,
                    self.height == gh,
                    self.inaccuracy == old(self).inaccuracy,
                    self.data@.len() == old(self).data@.len(),
                    n == self.data@.len(),
                    gw == old(self).width,
                    gh == old(self).height,
                    lights == world.lights_rendered@,
                    ww == world.width as int,
                    wh == world.height as int,
                    gy < gh,
                    gx <= gw,
                    index == gy * gw + gx,
                    cy as int == grid_to_world(gy as int, gh as int, wh),
                    -MAX_EXTENT <= cy <= MAX_EXTENT,
                    forall|y: int, x: int|
                        0 <= y < gy && 0 <= x < gw ==> self.data@[y * gw + x] == cell_value(
                            lights,
                            grid_to_world(x, gw as int, ww),
                            grid_to_world(y, gh as int, wh),
                        ),
                    forall|x: int|
                        0 <= x < gx ==> self.data@[gy * gw + x] == cell_value(
                            lights,
                            grid_to_world(x, gw as int, ww),
                            grid_to_world(gy as int, gh as int, wh),
                        ),
                decreases gw - gx,
            {
                let cx = grid_axis_world(gx, gw, world.width);
                proof {
                    assert(gy * gw + gx < gh * gw && gh * gw == gw * gh) by (nonlinear_arith)
                        requires
                            gy < gh && gx < gw && 0 <= gy && 0 <= gx && 0 < gw,
                    ;
                }
                let cell = cell_brightness(&world.lights_rendered, cx, cy);
                let ghost pre = self.data@;
                proof {
                    assert(self.width * self.height == gw * gh);
                    assert(n == gw * gh);
                    assert(index < gh * gw);
                    assert(index < n);
                }
                self.data[index] = cell;
                index += 1;
                gx += 1;
                proof {
                    assert forall|y: int, x: int|
                        0 <= y < gy && 0 <= x < gw implies self.data@[y * gw + x] == cell_value(
                        lights,
                        grid_to_world(x, gw as int, ww),
                        grid_to_world(y, gh as int, wh),
                    ) by {
                        assert(y * gw + x < gy * gw) by (nonlinear_arith)
                            requires
                                0 <= y && y < gy && 0 <= x && x < gw,
                        ;
                        assert(0 <= y * gw + x) by (nonlinear_arith)
                            requires
                                0 <= y && 0 <= x && 0 < gw,
                        ;
                        assert(self.data@[y * gw + x] == pre[y * gw + x]);
                    }
                }
            }
            proof {
                assert((gy + 1) * gw == gy * gw + gw) by (nonlinear_arith);
            }
            gy += 1;
        }
    }
}

/// The world coordinate of grid index `g` on an axis of `n` cells, computed
/// exactly as `grid_to_world` states it.
pub fn grid_axis_world(g: usize, n: usize, extent: i64) -> (c: i64)
    requires
        2 <= n <= MAX_DIM,
        g < n,
        0 < extent <= MAX_EXTENT,
    ensures
        c as int == grid_to_world(g as int, n as int, extent as int),
        -MAX_EXTENT <= c <= MAX_EXTENT,
{
    let den = (n - 1) as u64;
    let g2 = 2 * (g as u64);
    if g2 >= den {
        let num = g2 - den;
        proof {
            assert(extent * num <= extent * den && 0 <= extent * num && extent * num
                <= 0x800_0000_0000 * 0xFFFF) by (nonlinear_arith)
                requires
                    0 <= num <= den && 0 <= extent <= 0x800_0000_0000 && den <= 0xFFFF,
            ;
            lemma_div_at_most(extent * num, den as int, extent as int);
            vstd::arithmetic::div_mod::lemma_div_pos_is_pos(extent * num, den as int);
        }
        let v = (extent as u64) * num / den;
        v as i64
    } else {
        let num = den - g2;
        proof {
            assert(extent * num <= extent * den && 0 <= extent * num && extent * num
                <= 0x800_0000_0000 * 0xFFFF) by (nonlinear_arith)
                requires
                    0 <= num <= den && 0 <= extent <= 0x800_0000_0000 && den <= 0xFFFF,
            ;
            lemma_div_at_most(extent * num, den as int, extent as int);
            vstd::arithmetic::div_mod::lemma_div_pos_is_pos(extent * num, den as int);
        }
        let v = (extent as u64) * num / den;
        -(v as i64)
    }
}

} // verus!
