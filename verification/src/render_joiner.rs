//! The compositor: multiplies the object buffer by the light grid per
//! channel, upsampling the grid nearest-neighbor, and writes the RGBA frame.

use vstd::prelude::*;

use crate::arith::lemma_div_below;
use crate::renderer::WorldRenderer;

verus! {

/// Multiplies an 8-bit object channel by a 16-bit light channel interpreted
/// as an unsigned fixed-point fraction with 65536 standing for 1.0,
/// truncating. The product of a `u8` and a `u16` stays below `2^32` and the
/// shifted result below 255, so no explicit clamp is needed.
pub open spec fn multiply_factor_spec(n1: u8, n2: u16) -> int {
    (n1 * n2) / 65536
}

/// Scales an object-buffer channel by a light-grid channel.
pub fn multiply_factor(n1: u8, n2: u16) -> (r: u8)
    ensures
        r as int == multiply_factor_spec(n1, n2),
{
    proof {
        assert(0 <= n1 * n2 && n1 * n2 <= 255 * 65535) by (nonlinear_arith)
            requires
                n1 <= 255 && n2 <= 65535,
        ;
        crate::arith::lemma_div_at_most(n1 * n2, 65536, 255);
        vstd::arithmetic::div_mod::lemma_div_pos_is_pos(n1 * n2, 65536);
    }
    ((n1 as u32 * n2 as u32) / 65536) as u8
}

/// At full light (65535 on a channel) the compositor reproduces the object
/// channel up to the one step lost to fixed-point truncation.
pub proof fn lemma_multiply_factor_full(n1: u8)
    ensures
        multiply_factor_spec(n1, 65535) == if n1 == 0 {
            0int
        } else {
            n1 - 1
        },
{
    if n1 == 0 {
        assert(0 * 65535 == 0) by (nonlinear_arith);
        vstd::arithmetic::div_mod::lemma_div_of0(65536);
    } else {
        assert(n1 * 65535 == (n1 - 1) * 65536 + (65536 - n1)) by (nonlinear_arith);
        vstd::arithmetic::div_mod::lemma_fundamental_div_mod_converse(
            n1 * 65535,
            65536,
            n1 - 1,
            65536 - n1,
        );
    }
}

/// Which light-grid cell covers the screen pixel `(px, py)`:
/// nearest-neighbor downsampling of the pixel position into the grid.
pub open spec fn light_cell_index(px: int, py: int, w: int, h: int, lw: int, lh: int) -> int {
    (py * lh / h) * lw + px * lw / w
}

/// The RGBA frame the compositor produces: every pixel's RGB channels are
/// the object buffer's channels scaled by the covering light cell, and every
/// alpha byte is 255.
pub open spec fn joined(
    obj: Seq<(u8, u8, u8)>,
    light: Seq<(u16, u16, u16)>,
    w: int,
    h: int,
    lw: int,
    lh: int,
) -> Seq<u8> {
    Seq::new(
        (4 * obj.len()) as nat,
        |i: int|
            {
                let p = i / 4;
                let c = i % 4;
                let li = light_cell_index(p % w, p / w, w, h, lw, lh);
                if c == 0 {
                    multiply_factor_spec(obj[p].0, light[li].0) as u8
                } else if c == 1 {
                    multiply_factor_spec(obj[p].1, light[li].1) as u8
                } else if c == 2 {
                    multiply_factor_spec(obj[p].2, light[li].2) as u8
                } else {
                    255u8
                }
            },
    )
}

/// At pixel `p`, the joined frame reproduces the object buffer up to the
/// one step lost to fixed-point truncation, with an opaque alpha byte.
pub open spec fn join_identity_at(
    obj: Seq<(u8, u8, u8)>,
    light: Seq<(u16, u16, u16)>,
    w: int,
    h: int,
    lw: int,
    lh: int,
    p: int,
) -> bool {
    let out = joined(obj, light, w, h, lw, lh);
    &&& obj[p].0 - 1 <= out[4 * p] <= obj[p].0
    &&& obj[p].1 - 1 <= out[4 * p + 1] <= obj[p].1
    &&& obj[p].2 - 1 <= out[4 * p + 2] <= obj[p].2
    &&& (obj[p].0 == 0 ==> out[4 * p] == 0)
    &&& (obj[p].1 == 0 ==> out[4 * p + 1] == 0)
    &&& (obj[p].2 == 0 ==> out[4 * p + 2] == 0)
    &&& out[4 * p + 3] == 255
}

/// *Compositor identity.* Over a light grid that is uniformly 65535 in all
/// channels, the joined frame reproduces the object buffer: every RGB output
/// channel is within one step below its object channel (and zero stays
/// zero), and every alpha byte is 255.
pub proof fn lemma_join_identity(
    obj: Seq<(u8, u8, u8)>,
    light: Seq<(u16, u16, u16)>,
    w: int,
    h: int,
    lw: int,
    lh: int,
)
    requires
        0 < w,
        0 < h,
        0 < lw,
        0 < lh,
        obj.len() == w * h,
        light.len() == lw * lh,
        forall|i: int| 0 <= i < light.len() ==> light[i] == (65535u16, 65535u16, 65535u16),
    ensures
        forall|p: int|
            0 <= p < obj.len() ==> #[trigger] join_identity_at(obj, light, w, h, lw, lh, p),
{
    assert forall|p: int| 0 <= p < obj.len() implies #[trigger] join_identity_at(
        obj,
        light,
        w,
        h,
        lw,
        lh,
        p,
    ) by {
        lemma_pixel_split(p);
        vstd::arithmetic::div_mod::lemma_mod_bound(p, w);
        assert(p < h * w) by (nonlinear_arith)
            requires
                p < w * h,
        ;
        lemma_div_below(p, w, h);
        vstd::arithmetic::div_mod::lemma_div_pos_is_pos(p, w);
        let px = p % w;
        let py = p / w;
        assert(0 <= py * lh && py * lh < lh * h) by (nonlinear_arith)
            requires
                0 <= py && py < h && 0 < lh,
        ;
        lemma_div_below(py * lh, h, lh);
        vstd::arithmetic::div_mod::lemma_div_pos_is_pos(py * lh, h);
        assert(0 <= px * lw && px * lw < lw * w) by (nonlinear_arith)
            requires
                0 <= px && px < w && 0 < lw,
        ;
        lemma_div_below(px * lw, w, lw);
        vstd::arithmetic::div_mod::lemma_div_pos_is_pos(px * lw, w);
        let li = light_cell_index(px, py, w, h, lw, lh);
        assert(0 <= li && li < lh * lw && lh * lw == lw * lh) by (nonlinear_arith)
            requires
                0 <= py * lh / h && py * lh / h < lh && 0 <= px * lw / w && px * lw / w < lw && li
                    == (py * lh / h) * lw + px * lw / w && 0 < lw,
        ;
        assert(light[li] == (65535u16, 65535u16, 65535u16));
        lemma_multiply_factor_full(obj[p].0);
        lemma_multiply_factor_full(obj[p].1);
        lemma_multiply_factor_full(obj[p].2);
    }
}

/// Byte `4p + k` of the frame belongs to pixel `p`, channel `k`.
proof fn lemma_pixel_split(p: int)
    requires
        0 <= p,
    ensures
        (4 * p) / 4 == p && (4 * p) % 4 == 0,
        (4 * p + 1) / 4 == p && (4 * p + 1) % 4 == 1,
        (4 * p + 2) / 4 == p && (4 * p + 2) % 4 == 2,
        (4 * p + 3) / 4 == p && (4 * p + 3) % 4 == 3,
{
    vstd::arithmetic::div_mod::lemma_fundamental_div_mod_converse(4 * p, 4, p, 0);
    vstd::arithmetic::div_mod::lemma_fundamental_div_mod_converse(4 * p + 1, 4, p, 1);
    vstd::arithmetic::div_mod::lemma_fundamental_div_mod_converse(4 * p + 2, 4, p, 2);
    vstd::arithmetic::div_mod::lemma_fundamental_div_mod_converse(4 * p + 3, 4, p, 3);
}

/// Joins light and object data into the output frame. Several join
/// strategies were considered; this delegates to the validated one.
pub fn join(buffer: &mut Vec<u8>, data: &WorldRenderer)
    requires
        data.wf(),
        old(buffer)@.len() == 4 * (data.width * data.height),
    ensures
        final(buffer)@ == joined(
            data.objects_renderer.buffer@,
            data.lights_renderer.data@,
            data.width as int,
            data.height as int,
            data.lights_renderer.width as int,
            data.lights_renderer.height as int,
        ),
{
    join5(buffer, data)
}

/// The validated join: walks the frame row by row, fetches each pixel's
/// covering light cell by nearest-neighbor downsampling, multiplies the
/// object channels by the light channels, and writes an opaque alpha.
pub fn join5(buffer: &mut Vec<u8>, data: &WorldRenderer)
    requires
        data.wf(),
        old(buffer)@.len() == 4 * (data.width * data.height),
    ensures
        final(buffer)@ == joined(
            data.objects_renderer.buffer@,
            data.lights_renderer.data@,
            data.width as int,
            data.height as int,
            data.lights_renderer.width as int,
            data.lights_renderer.height as int,
        ),
{
    let w = data.width;
    let h = data.height;
    let lw = data.lights_renderer.width;
    let lh = data.lights_renderer.height;
    let llen = data.lights_renderer.data.len();
    let olen = data.objects_renderer.buffer.len();
    let n = buffer.len();
    let ghost jn = joined(
        data.objects_renderer.buffer@,
        data.lights_renderer.data@,
        w as int,
        h as int,
        lw as int,
        lh as int,
    );
    let mut objects_index: usize = 0;
    let mut buffer_index: usize = 0;
    let mut y_buffer: usize = 0;
    while y_buffer < h
        invariant
            data.wf(),
            w == data.width,
            h == data.height,
            lw == data.lights_renderer.width,
            lh == data.lights_renderer.height,
            llen == data.lights_renderer.data@.len(),
            olen == data.objects_renderer.buffer@.len(),
            n == buffer@.len(),
            n == 4 * (w * h),
            jn == joined(
                data.objects_renderer.buffer@,
                data.lights_renderer.data@,
                w as int,
                h as int,
                lw as int,
                lh as int,
            ),
            jn.len() == n,
            y_buffer <= h,
            objects_index == y_buffer * w,
            buffer_index == 4 * objects_index,
            forall|i: int| 0 <= i < buffer_index ==> buffer@[i] == jn[i],
        decreases h - y_buffer,
    {
        proof {
            assert(0 <= y_buffer * lh && y_buffer * lh < lh * h && y_buffer * lh <= 0xFFFF * 0xFFFF)
                by (nonlinear_arith)
                requires
                    0 <= y_buffer && y_buffer < h && 0 < lh && lh <= 0xFFFF && h <= 0xFFFF,
            ;
            lemma_div_below(y_buffer * lh as int, h as int, lh as int);
            vstd::arithmetic::div_mod::lemma_div_pos_is_pos(y_buffer * lh as int, h as int);
            let row0 = y_buffer * (lh as int) / (h as int);
            assert(row0 * lw < lh * lw && lh * lw == lw * lh && 0 <= row0 * lw)
                by (nonlinear_arith)
                requires
                    0 <= row0 && row0 < lh && 0 < lw,
            ;
        }
        let lights_index_row = (y_buffer * lh / h) * lw;
        let mut x_buffer: usize = 0;
        while x_buffer < w
            invariant
                data.wf(),
                w == data.width,
                h == data.height,
                lw == data.lights_renderer.width,
                lh == data.lights_renderer.height,
                llen == data.lights_renderer.data@.len(),
                olen == data.objects_renderer.buffer@.len(),
                n == buffer@.len(),
                n == 4 * (w * h),
                jn == joined(
                    data.objects_renderer.buffer@,
                    data.lights_renderer.data@,
                    w as int,
                    h as int,
                    lw as int,
                    lh as int,
                ),
                jn.len() == n,
                y_buffer < h,
                x_buffer <= w,
                lights_index_row as int == (y_buffer * lh as int / h as int) * lw,
                lights_index_row <= llen,
                objects_index == y_buffer * w + x_buffer,
                buffer_index == 4 * objects_index,
                forall|i: int| 0 <= i < buffer_index ==> buffer@[i] == jn[i],
            decreases w - x_buffer,
        {
            proof {
                assert(0 <= x_buffer * lw && x_buffer * lw < lw * w && x_buffer * lw <= 0xFFFF
                    * 0xFFFF) by (nonlinear_arith)
                    requires
                        0 <= x_buffer && x_buffer < w && 0 < lw && lw <= 0xFFFF && w <= 0xFFFF,
                ;
                lemma_div_below(x_buffer * lw as int, w as int, lw as int);
                vstd::arithmetic::div_mod::lemma_div_pos_is_pos(x_buffer * lw as int, w as int);
                assert(0 <= y_buffer * lh && y_buffer * lh < lh * h) by (nonlinear_arith)
                    requires
                        0 <= y_buffer && y_buffer < h && 0 < lh,
                ;
                lemma_div_below(y_buffer * lh as int, h as int, lh as int);
                vstd::arithmetic::div_mod::lemma_div_pos_is_pos(y_buffer * lh as int, h as int);
                let row0 = y_buffer * (lh as int) / (h as int);
                let col0 = x_buffer * (lw as int) / (w as int);
                assert(row0 * lw + col0 < lh * lw && lh * lw == lw * lh) by (nonlinear_arith)
                    requires
                        0 <= row0 && row0 < lh && 0 <= col0 && col0 < lw && 0 < lw,
                ;
                assert(objects_index < w * h && 4 * objects_index + 4 <= 4 * (w * h))
                    by (nonlinear_arith)
                    requires
                        objects_index == y_buffer * w + x_buffer && 0 <= y_buffer && y_buffer < h
                            && 0 <= x_buffer && x_buffer < w && 0 < w,
                ;
                lemma_pixel_split(objects_index as int);
                vstd::arithmetic::div_mod::lemma_fundamental_div_mod_converse(
                    objects_index as int,
                    w as int,
                    y_buffer as int,
                    x_buffer as int,
                );
            }
            let lights_index_pixel = lights_index_row + x_buffer * lw / w;
            let light = data.lights_renderer.data[lights_index_pixel];
            let obj = data.objects_renderer.buffer[objects_index];
            let ghost pre = buffer@;
            buffer[buffer_index] = multiply_factor(obj.0, light.0);
            buffer_index += 1;
            buffer[buffer_index] = multiply_factor(obj.1, light.1);
            buffer_index += 1;
            buffer[buffer_index] = multiply_factor(obj.2, light.2);
            buffer_index += 1;
            buffer[buffer_index] = 255;
            buffer_index += 1;
            objects_index += 1;
            x_buffer += 1;
            proof {
                assert forall|i: int| 0 <= i < buffer_index implies buffer@[i] == jn[i] by {
                    if i < buffer_index - 4 {
                        assert(buffer@[i] == pre[i]);
                    }
                }
            }
        }
        proof {
            assert((y_buffer + 1) * w == y_buffer * w + w) by (nonlinear_arith);
        }
        y_buffer += 1;
    }
    proof {
        assert(h * w == w * h) by (nonlinear_arith);
        assert(buffer@ =~= jn);
    }
}

} // verus!
