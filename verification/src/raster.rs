//! Software rasterizer fallback.
//!
//! When no hardware rasterizer is present, screen-space triangles are
//! rendered directly into a memory frame buffer: edge-function traversal of
//! the bounding box, barycentric interpolation in 24-bit fixed point, a
//! greater-than depth test (the viewport transform inverts z, so nearer
//! geometry has larger device z), and BGR byte order in the frame buffer.

use vstd::prelude::*;
use vstd::arithmetic::div_mod::{lemma_div_is_ordered, lemma_fundamental_div_mod};
use vstd::arithmetic::mul::lemma_mul_inequality;
use crate::texture::TEXTURE_BYTES;
use crate::vertex::ScreenVertex;

verus! {

/// Twice the signed area of triangle `(a, b, c)`; positive when `c` lies to
/// the left of the directed edge `a -> b`.
pub open spec fn orient2d_spec(ax: int, ay: int, bx: int, by: int, cx: int, cy: int) -> int {
    (bx - ax) * (cy - ay) - (by - ay) * (cx - ax)
}

/// Twice the signed area of a screen triangle.
pub open spec fn area_spec(trig: [ScreenVertex; 3]) -> int {
    orient2d_spec(
        trig[0].x as int,
        trig[0].y as int,
        trig[1].x as int,
        trig[1].y as int,
        trig[2].x as int,
        trig[2].y as int,
    )
}

/// The three edge-function values of pixel `(x, y)` against a triangle.
pub open spec fn edge0_spec(trig: [ScreenVertex; 3], x: int, y: int) -> int {
    orient2d_spec(trig[1].x as int, trig[1].y as int, trig[2].x as int, trig[2].y as int, x, y)
}

pub open spec fn edge1_spec(trig: [ScreenVertex; 3], x: int, y: int) -> int {
    orient2d_spec(trig[2].x as int, trig[2].y as int, trig[0].x as int, trig[0].y as int, x, y)
}

pub open spec fn edge2_spec(trig: [ScreenVertex; 3], x: int, y: int) -> int {
    orient2d_spec(trig[0].x as int, trig[0].y as int, trig[1].x as int, trig[1].y as int, x, y)
}

/// The 24-bit fixed-point reciprocal of the triangle area.
pub open spec fn area_recip_spec(trig: [ScreenVertex; 3]) -> int {
    0xFFFFFFint / area_spec(trig)
}

/// A pixel center is covered when it lies in the triangle's bounding box
/// and none of the three edge functions is negative.
pub open spec fn covered(trig: [ScreenVertex; 3], x: int, y: int) -> bool {
    &&& min3(trig[0].x as int, trig[1].x as int, trig[2].x as int) <= x <= max3(
        trig[0].x as int,
        trig[1].x as int,
        trig[2].x as int,
    )
    &&& min3(trig[0].y as int, trig[1].y as int, trig[2].y as int) <= y <= max3(
        trig[0].y as int,
        trig[1].y as int,
        trig[2].y as int,
    )
    &&& edge0_spec(trig, x, y) >= 0
    &&& edge1_spec(trig, x, y) >= 0
    &&& edge2_spec(trig, x, y) >= 0
}

pub open spec fn min3(a: int, b: int, c: int) -> int {
    if a <= b && a <= c {
        a
    } else if b <= c {
        b
    } else {
        c
    }
}

pub open spec fn max3(a: int, b: int, c: int) -> int {
    if a >= b && a >= c {
        a
    } else if b >= c {
        b
    } else {
        c
    }
}

/// Barycentric interpolation of three per-vertex values in 24-bit fixed
/// point, rounded to nearest.
pub open spec fn interp(a0: int, a1: int, a2: int, w0: int, w1: int, w2: int) -> int {
    (0x800000 + a0 * w0 + a1 * w1 + a2 * w2) / 0x1000000
}

/// The fixed-point barycentric weight of vertex `i` at pixel `(x, y)`.
pub open spec fn weight0(trig: [ScreenVertex; 3], x: int, y: int) -> int {
    edge0_spec(trig, x, y) * area_recip_spec(trig)
}

pub open spec fn weight1(trig: [ScreenVertex; 3], x: int, y: int) -> int {
    edge1_spec(trig, x, y) * area_recip_spec(trig)
}

pub open spec fn weight2(trig: [ScreenVertex; 3], x: int, y: int) -> int {
    edge2_spec(trig, x, y) * area_recip_spec(trig)
}

/// The interpolated device depth at pixel `(x, y)`.
pub open spec fn depth_at(trig: [ScreenVertex; 3], x: int, y: int) -> int {
    interp(
        trig[0].z as int,
        trig[1].z as int,
        trig[2].z as int,
        weight0(trig, x, y),
        weight1(trig, x, y),
        weight2(trig, x, y),
    )
}

/// Where the pixel's color comes from: the interpolants directly (Gouraud
/// RGB), or a texture sampled with the interpolants as S/T.
#[derive(Clone, Copy)]
pub enum ColorSource<'a> {
    Gouraud,
    /// 128 x 128 RGB texels, row-major by S.
    Texture(&'a Vec<u8>),
}

impl ColorSource<'_> {
    pub open spec fn wf(self) -> bool {
        self matches ColorSource::Texture(t) ==> t@.len() == TEXTURE_BYTES
    }

    /// The RGB color produced from the three interpolated attributes.
    pub open spec fn color_spec(self, r_s: u8, g_t: u8, b: u8) -> (u8, u8, u8) {
        match self {
            ColorSource::Gouraud => (r_s, g_t, b),
            ColorSource::Texture(t) => {
                let idx = ((r_s as int / 2) * 128 + (g_t as int / 2)) * 3;
                (t@[idx], t@[idx + 1], t@[idx + 2])
            },
        }
    }

    /// Map the interpolated attributes to an RGB color.
    pub fn color(&self, r_s: u8, g_t: u8, b: u8) -> (rgb: (u8, u8, u8))
        requires
            self.wf(),
        ensures
            rgb == self.color_spec(r_s, g_t, b),
    {
        match self {
            ColorSource::Gouraud => (r_s, g_t, b),
            ColorSource::Texture(t) => {
                proof {
                    assert(r_s as usize >> 1 == r_s as usize / 2 && g_t as usize >> 1 == g_t
                        as usize / 2 && r_s as usize / 2 < 128 && g_t as usize / 2 < 128) by (bit_vector);
                    assert(((r_s as int / 2) * 128 + (g_t as int / 2)) * 3 + 3 <= TEXTURE_BYTES);
                }
                let idx = ((r_s as usize >> 1) * 128 + (g_t as usize >> 1)) * 3;
                (t[idx], t[idx + 1], t[idx + 2])
            },
        }
    }
}

/// The interpolated value stays within the range of the vertex values'
/// type bound when the weights sum to at most `0xFFFFFF`.
proof fn lemma_interp_bound(a0: int, a1: int, a2: int, w0: int, w1: int, w2: int, bound: int)
    requires
        0 <= a0 <= bound,
        0 <= a1 <= bound,
        0 <= a2 <= bound,
        0 <= w0,
        0 <= w1,
        0 <= w2,
        w0 + w1 + w2 <= 0xFFFFFF,
        0 <= bound <= 0xFFFF,
    ensures
        0 <= interp(a0, a1, a2, w0, w1, w2) <= bound,
        0 <= a0 * w0 + a1 * w1 + a2 * w2 <= 0xFFFFFF * bound,
        a0 * w0 >= 0 && a1 * w1 >= 0 && a2 * w2 >= 0,
        a0 * w0 <= 0xFFFFFF * bound && a1 * w1 <= 0xFFFFFF * bound && a2 * w2 <= 0xFFFFFF * bound,
{
    lemma_mul_inequality(a0, bound, w0);
    lemma_mul_inequality(a1, bound, w1);
    lemma_mul_inequality(a2, bound, w2);
    assert(a0 * w0 >= 0 && a1 * w1 >= 0 && a2 * w2 >= 0) by (nonlinear_arith)
        requires
            a0 >= 0 && a1 >= 0 && a2 >= 0 && w0 >= 0 && w1 >= 0 && w2 >= 0,
    ;
    assert(bound * w0 + bound * w1 + bound * w2 == bound * (w0 + w1 + w2)) by (nonlinear_arith);
    lemma_mul_inequality(w0 + w1 + w2, 0xFFFFFF, bound);
    assert(bound * (w0 + w1 + w2) == (w0 + w1 + w2) * bound) by (nonlinear_arith);
    let num = 0x800000 + a0 * w0 + a1 * w1 + a2 * w2;
    assert(num <= 0x800000 + 0xFFFFFF * bound);
    lemma_div_is_ordered(num, 0x800000 + 0xFFFFFF * bound, 0x1000000);
    assert((0x800000 + 0xFFFFFF * bound) / 0x1000000 <= bound) by (nonlinear_arith)
        requires
            0 <= bound <= 0xFFFF,
    ;
    lemma_div_is_ordered(0, num, 0x1000000);
}

/// Write one pixel of a triangle: interpolate depth, keep the larger z,
/// and on success interpolate the attributes, map them to a color, and
/// store it in BGR order.
pub fn draw_pixel(
    frame_buffer: &mut Vec<u8>,
    depth_buffer: &mut Vec<u16>,
    trig: [ScreenVertex; 3],
    color_map: &ColorSource<'_>,
    pos: usize,
    ws: [u32; 3],
)
    requires
        color_map.wf(),
        pos < old(depth_buffer)@.len(),
        old(frame_buffer)@.len() == 3 * old(depth_buffer)@.len(),
        ws[0] as int + ws[1] as int + ws[2] as int <= 0xFFFFFF,
    ensures
        final(frame_buffer)@.len() == old(frame_buffer)@.len(),
        final(depth_buffer)@.len() == old(depth_buffer)@.len(),
        ({
            let z = interp(
                trig[0].z as int,
                trig[1].z as int,
                trig[2].z as int,
                ws[0] as int,
                ws[1] as int,
                ws[2] as int,
            );
            let a0 = interp(
                trig[0].r_s as int,
                trig[1].r_s as int,
                trig[2].r_s as int,
                ws[0] as int,
                ws[1] as int,
                ws[2] as int,
            );
            let a1 = interp(
                trig[0].g_t as int,
                trig[1].g_t as int,
                trig[2].g_t as int,
                ws[0] as int,
                ws[1] as int,
                ws[2] as int,
            );
            let a2 = interp(
                trig[0].b as int,
                trig[1].b as int,
                trig[2].b as int,
                ws[0] as int,
                ws[1] as int,
                ws[2] as int,
            );
            let rgb = color_map.color_spec(a0 as u8, a1 as u8, a2 as u8);
            if z > old(depth_buffer)@[pos as int] {
                &&& final(depth_buffer)@ == old(depth_buffer)@.update(pos as int, z as u16)
                &&& final(frame_buffer)@ == old(frame_buffer)@.update(3 * pos as int, rgb.2)
                    .update(3 * pos as int + 1, rgb.1).update(3 * pos as int + 2, rgb.0)
            } else {
                &&& final(depth_buffer)@ == old(depth_buffer)@
                &&& final(frame_buffer)@ == old(frame_buffer)@
            }
        }),
{
    proof {
        lemma_interp_bound(
            trig[0].z as int,
            trig[1].z as int,
            trig[2].z as int,
            ws[0] as int,
            ws[1] as int,
            ws[2] as int,
            0xFFFF,
        );
        lemma_interp_bound(
            trig[0].r_s as int,
            trig[1].r_s as int,
            trig[2].r_s as int,
            ws[0] as int,
            ws[1] as int,
            ws[2] as int,
            0xFF,
        );
        lemma_interp_bound(
            trig[0].g_t as int,
            trig[1].g_t as int,
            trig[2].g_t as int,
            ws[0] as int,
            ws[1] as int,
            ws[2] as int,
            0xFF,
        );
        lemma_interp_bound(
            trig[0].b as int,
            trig[1].b as int,
            trig[2].b as int,
            ws[0] as int,
            ws[1] as int,
            ws[2] as int,
            0xFF,
        );
    }
    let zsum: u64 = 0x800000u64 + trig[0].z as u64 * ws[0] as u64 + trig[1].z as u64 * ws[1]
        as u64 + trig[2].z as u64 * ws[2] as u64;
    let z: u16 = (zsum >> 24) as u16;
    proof {
        assert(zsum >> 24 == zsum / 0x1000000) by (bit_vector);
    }
    if z <= depth_buffer[pos] {
        return ;
    }
    depth_buffer[pos] = z;
    let a0sum: u32 = 0x800000u32 + trig[0].r_s as u32 * ws[0] + trig[1].r_s as u32 * ws[1]
        + trig[2].r_s as u32 * ws[2];
    let a1sum: u32 = 0x800000u32 + trig[0].g_t as u32 * ws[0] + trig[1].g_t as u32 * ws[1]
        + trig[2].g_t as u32 * ws[2];
    let a2sum: u32 = 0x800000u32 + trig[0].b as u32 * ws[0] + trig[1].b as u32 * ws[1] + trig[2].b
        as u32 * ws[2];
    proof {
        assert(a0sum >> 24 == a0sum / 0x1000000) by (bit_vector);
        assert(a1sum >> 24 == a1sum / 0x1000000) by (bit_vector);
        assert(a2sum >> 24 == a2sum / 0x1000000) by (bit_vector);
    }
    let (r, g, b) = color_map.color((a0sum >> 24) as u8, (a1sum >> 24) as u8, (a2sum >> 24) as u8);
    let flen = frame_buffer.len();
    proof {
        assert(pos * 3 + 2 < flen);
    }
    frame_buffer[pos * 3] = b;
    frame_buffer[pos * 3 + 1] = g;
    frame_buffer[pos * 3 + 2] = r;
    proof {
        assert(final(frame_buffer)@ =~= old(frame_buffer)@.update(
            3 * pos as int,
            b,
        ).update(3 * pos as int + 1, g).update(3 * pos as int + 2, r));
    }
}

} // verus!

verus! {

/// The signed area and every edge value of points with coordinates in
/// `[0, 2048]` stay well inside the 32-bit range.
proof fn lemma_orient_bound(ax: int, ay: int, bx: int, by: int, cx: int, cy: int)
    by (nonlinear_arith)
    requires
        0 <= ax <= 2048,
        0 <= ay <= 2048,
        0 <= bx <= 2048,
        0 <= by <= 2048,
        0 <= cx <= 2048,
        0 <= cy <= 2048,
    ensures
        -0x800001 <= orient2d_spec(ax, ay, bx, by, cx, cy) <= 0x800001,
{
}

/// Moving the query point one pixel right adds `ay - by` to the edge value.
proof fn lemma_orient_step_x(ax: int, ay: int, bx: int, by: int, cx: int, cy: int)
    by (nonlinear_arith)
    ensures
        orient2d_spec(ax, ay, bx, by, cx + 1, cy) == orient2d_spec(ax, ay, bx, by, cx, cy) + (ay
            - by),
{
}

/// Moving the query point one pixel down adds `bx - ax` to the edge value.
proof fn lemma_orient_step_y(ax: int, ay: int, bx: int, by: int, cx: int, cy: int)
    by (nonlinear_arith)
    ensures
        orient2d_spec(ax, ay, bx, by, cx, cy + 1) == orient2d_spec(ax, ay, bx, by, cx, cy) + (bx
            - ax),
{
}

/// The three edge values of any point sum to the triangle's signed area.
proof fn lemma_edge_sum(trig: [ScreenVertex; 3], x: int, y: int)
    ensures
        edge0_spec(trig, x, y) + edge1_spec(trig, x, y) + edge2_spec(trig, x, y) == area_spec(
            trig,
        ),
{
    let x0 = trig[0].x as int;
    let y0 = trig[0].y as int;
    let x1 = trig[1].x as int;
    let y1 = trig[1].y as int;
    let x2 = trig[2].x as int;
    let y2 = trig[2].y as int;
    lemma_expand_product(x2, x1, y, y1);
    lemma_expand_product(y2, y1, x, x1);
    lemma_expand_product(x0, x2, y, y2);
    lemma_expand_product(y0, y2, x, x2);
    lemma_expand_product(x1, x0, y, y0);
    lemma_expand_product(y1, y0, x, x0);
    lemma_expand_product(x1, x0, y2, y0);
    lemma_expand_product(y1, y0, x2, x0);
}

/// Distributes a product of two differences into its four monomials.
proof fn lemma_expand_product(p: int, q: int, r: int, s: int)
    by (nonlinear_arith)
    ensures
        (p - q) * (r - s) == p * r - p * s - q * r + q * s,
{
}

/// For a covered pixel of a positive-area triangle the three fixed-point
/// weights are nonnegative, each is at most `0xFFFFFF`, and they sum to at
/// most `0xFFFFFF`.
proof fn lemma_weight_bounds(trig: [ScreenVertex; 3], x: int, y: int)
    requires
        area_spec(trig) > 0,
        edge0_spec(trig, x, y) >= 0,
        edge1_spec(trig, x, y) >= 0,
        edge2_spec(trig, x, y) >= 0,
    ensures
        0 <= area_recip_spec(trig) <= 0xFFFFFF,
        0 <= weight0(trig, x, y),
        0 <= weight1(trig, x, y),
        0 <= weight2(trig, x, y),
        weight0(trig, x, y) + weight1(trig, x, y) + weight2(trig, x, y) <= 0xFFFFFF,
{
    let area = area_spec(trig);
    let recip = area_recip_spec(trig);
    let e0 = edge0_spec(trig, x, y);
    let e1 = edge1_spec(trig, x, y);
    let e2 = edge2_spec(trig, x, y);
    vstd::arithmetic::div_mod::lemma_div_pos_is_pos(0xFFFFFF, area);
    lemma_fundamental_div_mod(0xFFFFFF, area);
    vstd::arithmetic::div_mod::lemma_mod_bound(0xFFFFFF, area);
    assert(area * recip <= 0xFFFFFF);
    lemma_div_is_ordered(1, 0xFFFFFF, area);
    assert(recip <= 0xFFFFFF) by {
        if recip > 0xFFFFFF {
            assert(area * recip >= recip) by (nonlinear_arith)
                requires
                    area >= 1 && recip >= 0,
            ;
        }
    }
    lemma_edge_sum(trig, x, y);
    assert(e0 * recip >= 0 && e1 * recip >= 0 && e2 * recip >= 0) by (nonlinear_arith)
        requires
            e0 >= 0 && e1 >= 0 && e2 >= 0 && recip >= 0,
    ;
    assert(e0 * recip + e1 * recip + e2 * recip == (e0 + e1 + e2) * recip) by (nonlinear_arith);
    assert((e0 + e1 + e2) * recip == area * recip);
}

/// Distinct pixels of one frame have distinct linear positions.
proof fn lemma_pos_injective(width: int, x1: int, y1: int, x2: int, y2: int)
    requires
        0 <= x1 < width,
        0 <= x2 < width,
        0 <= y1,
        0 <= y2,
        y1 * width + x1 == y2 * width + x2,
    ensures
        x1 == x2,
        y1 == y2,
{
    assert(y1 == y2) by (nonlinear_arith)
        requires
            0 <= x1 < width && 0 <= x2 < width && 0 <= y1 && 0 <= y2,
            y1 * width + x1 == y2 * width + x2,
    ;
}

} // verus!

verus! {

/// The interpolated attribute triple at pixel `(x, y)`.
pub open spec fn attrs_at(trig: [ScreenVertex; 3], x: int, y: int) -> (int, int, int) {
    let w0 = weight0(trig, x, y);
    let w1 = weight1(trig, x, y);
    let w2 = weight2(trig, x, y);
    (
        interp(trig[0].r_s as int, trig[1].r_s as int, trig[2].r_s as int, w0, w1, w2),
        interp(trig[0].g_t as int, trig[1].g_t as int, trig[2].g_t as int, w0, w1, w2),
        interp(trig[0].b as int, trig[1].b as int, trig[2].b as int, w0, w1, w2),
    )
}

/// Pixel `(x, y)` of the output pair `(f, d)` is what rasterizing the
/// triangle over the input pair `(f0, d0)` leaves there: written (depth and
/// BGR color) when the pixel is covered and wins the depth test, untouched
/// otherwise.
pub open spec fn pixel_rendered(
    trig: [ScreenVertex; 3],
    color: ColorSource<'_>,
    f0: Seq<u8>,
    d0: Seq<u16>,
    f: Seq<u8>,
    d: Seq<u16>,
    width: int,
    x: int,
    y: int,
) -> bool {
    let pos = y * width + x;
    if covered(trig, x, y) && depth_at(trig, x, y) > d0[pos] {
        let a = attrs_at(trig, x, y);
        let rgb = color.color_spec(a.0 as u8, a.1 as u8, a.2 as u8);
        &&& d[pos] == depth_at(trig, x, y)
        &&& f[3 * pos] == rgb.2
        &&& f[3 * pos + 1] == rgb.1
        &&& f[3 * pos + 2] == rgb.0
    } else {
        pixel_untouched(f0, d0, f, d, width, x, y)
    }
}

/// Pixel `(x, y)` carries the same depth and color in `(f, d)` as in
/// `(f0, d0)`.
pub open spec fn pixel_untouched(
    f0: Seq<u8>,
    d0: Seq<u16>,
    f: Seq<u8>,
    d: Seq<u16>,
    width: int,
    x: int,
    y: int,
) -> bool {
    let pos = y * width + x;
    &&& d[pos] == d0[pos]
    &&& f[3 * pos] == f0[3 * pos]
    &&& f[3 * pos + 1] == f0[3 * pos + 1]
    &&& f[3 * pos + 2] == f0[3 * pos + 2]
}

/// Rasterize one screen triangle into the frame and depth buffers.
///
/// Triangles with non-positive signed area (counter-clockwise or degenerate
/// winding) are discarded.  Otherwise every pixel of the frame is written
/// if and only if it lies in the triangle's bounding box, none of its three
/// edge functions is negative, and its interpolated depth is greater than
/// the stored depth; the top-left fill rule is not applied.
pub fn draw(
    frame_buffer: &mut Vec<u8>,
    depth_buffer: &mut Vec<u16>,
    width: usize,
    trig: [ScreenVertex; 3],
    color_map: ColorSource<'_>,
)
    requires
        0 < width,
        color_map.wf(),
        old(frame_buffer)@.len() == 3 * old(depth_buffer)@.len(),
        forall|i: int| 0 <= i < 3 ==> (#[trigger] trig[i]).wf(),
        forall|i: int| 0 <= i < 3 ==> (#[trigger] trig[i]).x < width,
        forall|i: int| 0 <= i < 3 ==> ((#[trigger] trig[i]).y + 1) * width <= old(
            depth_buffer,
        )@.len(),
    ensures
        final(frame_buffer)@.len() == old(frame_buffer)@.len(),
        final(depth_buffer)@.len() == old(depth_buffer)@.len(),
        area_spec(trig) <= 0 ==> final(frame_buffer)@ == old(frame_buffer)@
            && final(depth_buffer)@ == old(depth_buffer)@,
        area_spec(trig) > 0 ==> forall|x: int, y: int|
            0 <= x < width && 0 <= y && y * width + x < old(depth_buffer)@.len()
                ==> pixel_rendered(
                trig,
                color_map,
                old(frame_buffer)@,
                old(depth_buffer)@,
                final(frame_buffer)@,
                final(depth_buffer)@,
                width as int,
                x,
                y,
            ),
{
    let area = orient2d(
        [trig[0].x, trig[0].y],
        [trig[1].x, trig[1].y],
        [trig[2].x, trig[2].y],
    );
    if area <= 0 {
        return ;
    }
    let area_recip = (0xFFFFFF / area) as u32;
    proof {
        vstd::arithmetic::div_mod::lemma_div_pos_is_pos(0xFFFFFF, area as int);
        lemma_div_is_ordered(1, 0xFFFFFF, area as int);
        assert(area_recip == area_recip_spec(trig));
    }

    let min_x = min3_u16(trig[0].x, trig[1].x, trig[2].x) as usize;
    let max_x = max3_u16(trig[0].x, trig[1].x, trig[2].x) as usize;
    let min_y = min3_u16(trig[0].y, trig[1].y, trig[2].y) as usize;
    let max_y = max3_u16(trig[0].y, trig[1].y, trig[2].y) as usize;

    let a01 = trig[0].y as i32 - trig[1].y as i32;
    let a12 = trig[1].y as i32 - trig[2].y as i32;
    let a20 = trig[2].y as i32 - trig[0].y as i32;
    let b01 = trig[1].x as i32 - trig[0].x as i32;
    let b12 = trig[2].x as i32 - trig[1].x as i32;
    let b20 = trig[0].x as i32 - trig[2].x as i32;

    let p: [u16; 2] = [min_x as u16, min_y as u16];
    let mut w0_row = orient2d([trig[1].x, trig[1].y], [trig[2].x, trig[2].y], p);
    let mut w1_row = orient2d([trig[2].x, trig[2].y], [trig[0].x, trig[0].y], p);
    let mut w2_row = orient2d([trig[0].x, trig[0].y], [trig[1].x, trig[1].y], p);

    let mut y = min_y;
    while y <= max_y
        invariant
            0 < width,
            color_map.wf(),
            area_spec(trig) > 0,
            area == area_spec(trig),
            area_recip == area_recip_spec(trig),
            forall|i: int| 0 <= i < 3 ==> (#[trigger] trig[i]).wf(),
            forall|i: int| 0 <= i < 3 ==> (#[trigger] trig[i]).x < width,
            forall|i: int| 0 <= i < 3 ==> ((#[trigger] trig[i]).y + 1) * width <= old(
                depth_buffer,
            )@.len(),
            min_x == min3(trig[0].x as int, trig[1].x as int, trig[2].x as int),
            max_x == max3(trig[0].x as int, trig[1].x as int, trig[2].x as int),
            min_y == min3(trig[0].y as int, trig[1].y as int, trig[2].y as int),
            max_y == max3(trig[0].y as int, trig[1].y as int, trig[2].y as int),
            max_x < 2048 && max_y < 2048,
            a01 == trig[0].y as int - trig[1].y as int,
            a12 == trig[1].y as int - trig[2].y as int,
            a20 == trig[2].y as int - trig[0].y as int,
            b01 == trig[1].x as int - trig[0].x as int,
            b12 == trig[2].x as int - trig[1].x as int,
            b20 == trig[0].x as int - trig[2].x as int,
            min_y <= y <= max_y + 1,
            w0_row == edge0_spec(trig, min_x as int, y as int),
            w1_row == edge1_spec(trig, min_x as int, y as int),
            w2_row == edge2_spec(trig, min_x as int, y as int),
            frame_buffer@.len() == old(frame_buffer)@.len(),
            depth_buffer@.len() == old(depth_buffer)@.len(),
            old(frame_buffer)@.len() == 3 * old(depth_buffer)@.len(),
            forall|x2: int, y2: int|
                0 <= x2 < width && 0 <= y2 < y && y2 * width + x2 < old(depth_buffer)@.len()
                    ==> pixel_rendered(
                    trig,
                    color_map,
                    old(frame_buffer)@,
                    old(depth_buffer)@,
                    frame_buffer@,
                    depth_buffer@,
                    width as int,
                    x2,
                    y2,
                ),
            forall|x2: int, y2: int|
                0 <= x2 < width && y <= y2 && y2 * width + x2 < old(depth_buffer)@.len()
                    ==> pixel_untouched(
                    old(frame_buffer)@,
                    old(depth_buffer)@,
                    frame_buffer@,
                    depth_buffer@,
                    width as int,
                    x2,
                    y2,
                ),
        decreases max_y + 1 - y,
    {
        proof {
            assert forall|x2: int| 0 <= x2 < min_x && x2 < width implies pixel_rendered(
                trig,
                color_map,
                old(frame_buffer)@,
                old(depth_buffer)@,
                frame_buffer@,
                depth_buffer@,
                width as int,
                x2,
                y as int,
            ) by {
                lemma_pos_bound(width as int, old(depth_buffer)@.len() as int, trig, x2, y as int);
                assert(!covered(trig, x2, y as int));
            }
        }
        let mut w0 = w0_row;
        let mut w1 = w1_row;
        let mut w2 = w2_row;
        let mut x = min_x;
        while x <= max_x
            invariant
                0 < width,
                color_map.wf(),
                area_spec(trig) > 0,
                area == area_spec(trig),
                area_recip == area_recip_spec(trig),
                forall|i: int| 0 <= i < 3 ==> (#[trigger] trig[i]).wf(),
                forall|i: int| 0 <= i < 3 ==> (#[trigger] trig[i]).x < width,
                forall|i: int| 0 <= i < 3 ==> ((#[trigger] trig[i]).y + 1) * width <= old(
                    depth_buffer,
                )@.len(),
                min_x == min3(trig[0].x as int, trig[1].x as int, trig[2].x as int),
                max_x == max3(trig[0].x as int, trig[1].x as int, trig[2].x as int),
                min_y == min3(trig[0].y as int, trig[1].y as int, trig[2].y as int),
                max_y == max3(trig[0].y as int, trig[1].y as int, trig[2].y as int),
                max_x < 2048 && max_y < 2048,
                a01 == trig[0].y as int - trig[1].y as int,
                a12 == trig[1].y as int - trig[2].y as int,
                a20 == trig[2].y as int - trig[0].y as int,
                min_y <= y <= max_y,
                min_x <= x <= max_x + 1,
                w0 == edge0_spec(trig, x as int, y as int),
                w1 == edge1_spec(trig, x as int, y as int),
                w2 == edge2_spec(trig, x as int, y as int),
                frame_buffer@.len() == old(frame_buffer)@.len(),
                depth_buffer@.len() == old(depth_buffer)@.len(),
                old(frame_buffer)@.len() == 3 * old(depth_buffer)@.len(),
                forall|x2: int, y2: int|
                    0 <= x2 < width && 0 <= y2 < y && y2 * width + x2 < old(depth_buffer)@.len()
                        ==> pixel_rendered(
                        trig,
                        color_map,
                        old(frame_buffer)@,
                        old(depth_buffer)@,
                        frame_buffer@,
                        depth_buffer@,
                        width as int,
                        x2,
                        y2,
                    ),
                forall|x2: int|
                    0 <= x2 < x && x2 < width ==> pixel_rendered(
                        trig,
                        color_map,
                        old(frame_buffer)@,
                        old(depth_buffer)@,
                        frame_buffer@,
                        depth_buffer@,
                        width as int,
                        x2,
                        y as int,
                    ),
                forall|x2: int, y2: int|
                    0 <= x2 < width && (y < y2 || (y2 == y && x <= x2)) && y2 * width + x2 < old(
                        depth_buffer,
                    )@.len() ==> pixel_untouched(
                        old(frame_buffer)@,
                        old(depth_buffer)@,
                        frame_buffer@,
                        depth_buffer@,
                        width as int,
                        x2,
                        y2,
                    ),
            decreases max_x + 1 - x,
        {
            let dlen = depth_buffer.len();
            proof {
                lemma_pos_bound(width as int, old(depth_buffer)@.len() as int, trig, x as int, y as int);
                assert(y * width + x < dlen);
            }
            let pos = y * width + x;
            if w0 >= 0 && w1 >= 0 && w2 >= 0 {
                proof {
                    lemma_weight_bounds(trig, x as int, y as int);
                    lemma_edge_sum(trig, x as int, y as int);
                    lemma_mul_inequality(w0 as int, area as int, area_recip as int);
                    lemma_mul_inequality(w1 as int, area as int, area_recip as int);
                    lemma_mul_inequality(w2 as int, area as int, area_recip as int);
                    lemma_interp_bound(
                        trig[0].z as int,
                        trig[1].z as int,
                        trig[2].z as int,
                        weight0(trig, x as int, y as int),
                        weight1(trig, x as int, y as int),
                        weight2(trig, x as int, y as int),
                        0xFFFF,
                    );
                }
                let ghost f_before = frame_buffer@;
                let ghost d_before = depth_buffer@;
                draw_pixel(
                    frame_buffer,
                    depth_buffer,
                    trig,
                    &color_map,
                    pos,
                    [w0 as u32 * area_recip, w1 as u32 * area_recip, w2 as u32 * area_recip],
                );
                proof {
                    lemma_after_pixel(
                        trig,
                        color_map,
                        old(frame_buffer)@,
                        old(depth_buffer)@,
                        f_before,
                        d_before,
                        frame_buffer@,
                        depth_buffer@,
                        width as int,
                        x as int,
                        y as int,
                    );
                }
            }
            x += 1;
            proof {
                lemma_orient_bound(
                    trig[1].x as int,
                    trig[1].y as int,
                    trig[2].x as int,
                    trig[2].y as int,
                    x as int,
                    y as int,
                );
                lemma_orient_bound(
                    trig[2].x as int,
                    trig[2].y as int,
                    trig[0].x as int,
                    trig[0].y as int,
                    x as int,
                    y as int,
                );
                lemma_orient_bound(
                    trig[0].x as int,
                    trig[0].y as int,
                    trig[1].x as int,
                    trig[1].y as int,
                    x as int,
                    y as int,
                );
                lemma_orient_step_x(
                    trig[1].x as int,
                    trig[1].y as int,
                    trig[2].x as int,
                    trig[2].y as int,
                    x as int - 1,
                    y as int,
                );
                lemma_orient_step_x(
                    trig[2].x as int,
                    trig[2].y as int,
                    trig[0].x as int,
                    trig[0].y as int,
                    x as int - 1,
                    y as int,
                );
                lemma_orient_step_x(
                    trig[0].x as int,
                    trig[0].y as int,
                    trig[1].x as int,
                    trig[1].y as int,
                    x as int - 1,
                    y as int,
                );
            }
            w0 += a12;
            w1 += a20;
            w2 += a01;
        }
        proof {
            assert forall|x2: int|
                x <= x2 && 0 <= x2 < width implies pixel_rendered(
                trig,
                color_map,
                old(frame_buffer)@,
                old(depth_buffer)@,
                frame_buffer@,
                depth_buffer@,
                width as int,
                x2,
                y as int,
            ) by {
                lemma_pos_bound(width as int, old(depth_buffer)@.len() as int, trig, x2, y as int);
                assert(!covered(trig, x2, y as int));
            }
        }
        y += 1;
        proof {
            lemma_orient_bound(
                trig[1].x as int,
                trig[1].y as int,
                trig[2].x as int,
                trig[2].y as int,
                min_x as int,
                y as int,
            );
            lemma_orient_bound(
                trig[2].x as int,
                trig[2].y as int,
                trig[0].x as int,
                trig[0].y as int,
                min_x as int,
                y as int,
            );
            lemma_orient_bound(
                trig[0].x as int,
                trig[0].y as int,
                trig[1].x as int,
                trig[1].y as int,
                min_x as int,
                y as int,
            );
            lemma_orient_step_y(
                trig[1].x as int,
                trig[1].y as int,
                trig[2].x as int,
                trig[2].y as int,
                min_x as int,
                y as int - 1,
            );
            lemma_orient_step_y(
                trig[2].x as int,
                trig[2].y as int,
                trig[0].x as int,
                trig[0].y as int,
                min_x as int,
                y as int - 1,
            );
            lemma_orient_step_y(
                trig[0].x as int,
                trig[0].y as int,
                trig[1].x as int,
                trig[1].y as int,
                min_x as int,
                y as int - 1,
            );
        }
        w0_row += b12;
        w1_row += b20;
        w2_row += b01;
    }
    proof {
        assert forall|x2: int, y2: int|
            0 <= x2 < width && 0 <= y2 && y <= y2 && y2 * width + x2 < old(depth_buffer)@.len()
            implies pixel_rendered(
            trig,
            color_map,
            old(frame_buffer)@,
            old(depth_buffer)@,
            frame_buffer@,
            depth_buffer@,
            width as int,
            x2,
            y2,
        ) by {
            assert(!covered(trig, x2, y2));
        }
    }
}

/// Smallest of three device coordinates.
fn min3_u16(a: u16, b: u16, c: u16) -> (r: u16)
    ensures
        r == min3(a as int, b as int, c as int),
{
    if a <= b && a <= c {
        a
    } else if b <= c {
        b
    } else {
        c
    }
}

/// Largest of three device coordinates.
fn max3_u16(a: u16, b: u16, c: u16) -> (r: u16)
    ensures
        r == max3(a as int, b as int, c as int),
{
    if a >= b && a >= c {
        a
    } else if b >= c {
        b
    } else {
        c
    }
}

/// Twice the signed area of the pixel-coordinate triangle `(a, b, c)`.
fn orient2d(a: [u16; 2], b: [u16; 2], c: [u16; 2]) -> (r: i32)
    requires
        a[0] < 2048 && a[1] < 2048 && b[0] < 2048 && b[1] < 2048 && c[0] < 2048 && c[1] < 2048,
    ensures
        r == orient2d_spec(a[0] as int, a[1] as int, b[0] as int, b[1] as int, c[0] as int, c[1] as int),
{
    proof {
        lemma_orient_bound(a[0] as int, a[1] as int, b[0] as int, b[1] as int, c[0] as int, c[1] as int);
        lemma_expand_product(b[0] as int, a[0] as int, c[1] as int, a[1] as int);
        lemma_expand_product(b[1] as int, a[1] as int, c[0] as int, a[0] as int);
        assert(
            (b[0] as int - a[0] as int) * (c[1] as int - a[1] as int) <= 0x800001
            && (b[0] as int - a[0] as int) * (c[1] as int - a[1] as int) >= -0x800001
            && (b[1] as int - a[1] as int) * (c[0] as int - a[0] as int) <= 0x800001
            && (b[1] as int - a[1] as int) * (c[0] as int - a[0] as int) >= -0x800001
        ) by (nonlinear_arith)
            requires
                0 <= a[0] < 2048 && 0 <= a[1] < 2048 && 0 <= b[0] < 2048 && 0 <= b[1] < 2048
                    && 0 <= c[0] < 2048 && 0 <= c[1] < 2048,
        ;
    }
    (b[0] as i32 - a[0] as i32) * (c[1] as i32 - a[1] as i32) - (b[1] as i32 - a[1] as i32) * (c[0]
        as i32 - a[0] as i32)
}

/// The linear position of any pixel a bounding-box walk can reach lies
/// inside the depth buffer.
proof fn lemma_pos_bound(width: int, len: int, trig: [ScreenVertex; 3], x: int, y: int)
    requires
        0 < width,
        0 <= x < width,
        0 <= y <= max3(trig[0].y as int, trig[1].y as int, trig[2].y as int),
        forall|i: int| 0 <= i < 3 ==> ((#[trigger] trig[i]).y + 1) * width <= len,
    ensures
        0 <= y * width + x < len,
{
    let my = max3(trig[0].y as int, trig[1].y as int, trig[2].y as int);
    assert((my + 1) * width <= len);
    lemma_mul_inequality(y, my, width);
    assert(my * width + width == (my + 1) * width) by (nonlinear_arith);
    assert(y * width >= 0) by (nonlinear_arith)
        requires
            y >= 0 && width > 0,
    ;
}

/// One `draw_pixel` call realizes `pixel_rendered` for its own pixel and
/// leaves every other pixel as it was.
proof fn lemma_after_pixel(
    trig: [ScreenVertex; 3],
    color: ColorSource<'_>,
    f0: Seq<u8>,
    d0: Seq<u16>,
    f1: Seq<u8>,
    d1: Seq<u16>,
    f2: Seq<u8>,
    d2: Seq<u16>,
    width: int,
    x: int,
    y: int,
)
    requires
        0 < width,
        0 <= x < width,
        0 <= y,
        f0.len() == 3 * d0.len(),
        f1.len() == f0.len() && d1.len() == d0.len(),
        f2.len() == f0.len() && d2.len() == d0.len(),
        y * width + x < d0.len(),
        covered(trig, x, y),
        area_spec(trig) > 0,
        pixel_untouched(f0, d0, f1, d1, width, x, y),
        ({
            let pos = y * width + x;
            let z = depth_at(trig, x, y);
            let a = attrs_at(trig, x, y);
            let rgb = color.color_spec(a.0 as u8, a.1 as u8, a.2 as u8);
            if z > d1[pos] {
                d2 == d1.update(pos, z as u16) && f2 == f1.update(3 * pos, rgb.2).update(
                    3 * pos + 1,
                    rgb.1,
                ).update(3 * pos + 2, rgb.0)
            } else {
                d2 == d1 && f2 == f1
            }
        }),
        0 <= depth_at(trig, x, y) <= 0xFFFF,
    ensures
        pixel_rendered(trig, color, f0, d0, f2, d2, width, x, y),
        forall|x2: int, y2: int|
            0 <= x2 < width && 0 <= y2 && y2 * width + x2 < d0.len() && (x2 != x || y2 != y)
                && pixel_untouched(f0, d0, f1, d1, width, x2, y2) ==> pixel_untouched(
                f0,
                d0,
                f2,
                d2,
                width,
                x2,
                y2,
            ),
        forall|x2: int, y2: int|
            0 <= x2 < width && 0 <= y2 && y2 * width + x2 < d0.len() && (x2 != x || y2 != y)
                && pixel_rendered(trig, color, f0, d0, f1, d1, width, x2, y2) ==> pixel_rendered(
                trig,
                color,
                f0,
                d0,
                f2,
                d2,
                width,
                x2,
                y2,
            ),
{
    let pos = y * width + x;
    assert forall|x2: int, y2: int|
        0 <= x2 < width && 0 <= y2 && y2 * width + x2 < d0.len() && (x2 != x || y2 != y)
            && pixel_untouched(f0, d0, f1, d1, width, x2, y2) implies pixel_untouched(
        f0,
        d0,
        f2,
        d2,
        width,
        x2,
        y2,
    ) by {
        let pos2 = y2 * width + x2;
        if pos2 == pos {
            lemma_pos_injective(width, x2, y2, x, y);
        }
        assert(pos2 != pos);
    }
    assert forall|x2: int, y2: int|
        0 <= x2 < width && 0 <= y2 && y2 * width + x2 < d0.len() && (x2 != x || y2 != y)
            && pixel_rendered(trig, color, f0, d0, f1, d1, width, x2, y2) implies pixel_rendered(
        trig,
        color,
        f0,
        d0,
        f2,
        d2,
        width,
        x2,
        y2,
    ) by {
        let pos2 = y2 * width + x2;
        if pos2 == pos {
            lemma_pos_injective(width, x2, y2, x, y);
        }
        assert(pos2 != pos);
    }
}

} // verus!

verus! {

/// Texture storage for the software path: a plain copy of the texel bytes,
/// sampled directly by [`ColorSource::Texture`].
pub struct TextureBuffer {
    data: Vec<u8>,
}

impl TextureBuffer {
    pub closed spec fn spec_data(self) -> Seq<u8> {
        self.data@
    }

    pub open spec fn wf(self) -> bool {
        self.spec_data().len() == TEXTURE_BYTES
    }

    /// A fresh, all-black texture.
    pub fn new() -> (t: Self)
        ensures
            t.wf(),
            t.spec_data() =~= Seq::new(TEXTURE_BYTES as nat, |i: int| 0u8),
    {
        TextureBuffer { data: vec![0u8; TEXTURE_BYTES] }
    }

    /// Replace the texel bytes.
    pub fn load(&mut self, rgb: &[u8])
        requires
            rgb@.len() == TEXTURE_BYTES,
        ensures
            final(self).wf(),
            final(self).spec_data() == rgb@,
    {
        self.data = vstd::slice::slice_to_vec(rgb);
    }

    /// The texel bytes, for sampling.
    pub fn data(&self) -> (r: &Vec<u8>)
        ensures
            r@ == self.spec_data(),
    {
        &self.data
    }
}

} // verus!

verus! {

/// The edge-weighted sum of the vertex x-coordinates equals the
/// area-weighted x of the query point (the barycentric identity).
proof fn lemma_barycentric_x(trig: [ScreenVertex; 3], x: int, y: int)
    ensures
        edge0_spec(trig, x, y) * (trig[0].x as int) + edge1_spec(trig, x, y) * (trig[1].x as int)
            + edge2_spec(trig, x, y) * (trig[2].x as int) == area_spec(trig) * x,
{
    let x0 = trig[0].x as int;
    let y0 = trig[0].y as int;
    let x1 = trig[1].x as int;
    let y1 = trig[1].y as int;
    let x2 = trig[2].x as int;
    let y2 = trig[2].y as int;
    let u1 = x1 - x0;
    let u2 = x2 - x0;
    let v1 = y1 - y0;
    let v2 = y2 - y0;
    let px = x - x0;
    let py = y - y0;
    let e0 = edge0_spec(trig, x, y);
    let e1 = edge1_spec(trig, x, y);
    let e2 = edge2_spec(trig, x, y);
    let area = area_spec(trig);
    lemma_edge_sum(trig, x, y);
    assert(e1 == v2 * px - u2 * py) by (nonlinear_arith)
        requires
            e1 == (x0 - x2) * (y - y2) - (y0 - y2) * (x - x2),
            u2 == x2 - x0 && v2 == y2 - y0 && px == x - x0 && py == y - y0,
    ;
    assert(e2 == u1 * py - v1 * px) by (nonlinear_arith)
        requires
            e2 == (x1 - x0) * (y - y0) - (y1 - y0) * (x - x0),
            u1 == x1 - x0 && v1 == y1 - y0 && px == x - x0 && py == y - y0,
    ;
    assert(area == u1 * v2 - v1 * u2) by (nonlinear_arith)
        requires
            area == (x1 - x0) * (y2 - y0) - (y1 - y0) * (x2 - x0),
            u1 == x1 - x0 && u2 == x2 - x0 && v1 == y1 - y0 && v2 == y2 - y0,
    ;
    assert(e1 * u1 + e2 * u2 == area * px) by (nonlinear_arith)
        requires
            e1 == v2 * px - u2 * py && e2 == u1 * py - v1 * px && area == u1 * v2 - v1 * u2,
    ;
    assert(e0 * x0 + e1 * x1 + e2 * x2 == area * x) by (nonlinear_arith)
        requires
            e0 + e1 + e2 == area,
            e1 * u1 + e2 * u2 == area * px,
            u1 == x1 - x0 && u2 == x2 - x0 && px == x - x0,
    ;
}

/// The same identity for the y-coordinates.
proof fn lemma_barycentric_y(trig: [ScreenVertex; 3], x: int, y: int)
    ensures
        edge0_spec(trig, x, y) * (trig[0].y as int) + edge1_spec(trig, x, y) * (trig[1].y as int)
            + edge2_spec(trig, x, y) * (trig[2].y as int) == area_spec(trig) * y,
{
    let x0 = trig[0].x as int;
    let y0 = trig[0].y as int;
    let x1 = trig[1].x as int;
    let y1 = trig[1].y as int;
    let x2 = trig[2].x as int;
    let y2 = trig[2].y as int;
    let u1 = x1 - x0;
    let u2 = x2 - x0;
    let v1 = y1 - y0;
    let v2 = y2 - y0;
    let px = x - x0;
    let py = y - y0;
    let e0 = edge0_spec(trig, x, y);
    let e1 = edge1_spec(trig, x, y);
    let e2 = edge2_spec(trig, x, y);
    let area = area_spec(trig);
    lemma_edge_sum(trig, x, y);
    assert(e1 == v2 * px - u2 * py) by (nonlinear_arith)
        requires
            e1 == (x0 - x2) * (y - y2) - (y0 - y2) * (x - x2),
            u2 == x2 - x0 && v2 == y2 - y0 && px == x - x0 && py == y - y0,
    ;
    assert(e2 == u1 * py - v1 * px) by (nonlinear_arith)
        requires
            e2 == (x1 - x0) * (y - y0) - (y1 - y0) * (x - x0),
            u1 == x1 - x0 && v1 == y1 - y0 && px == x - x0 && py == y - y0,
    ;
    assert(area == u1 * v2 - v1 * u2) by (nonlinear_arith)
        requires
            area == (x1 - x0) * (y2 - y0) - (y1 - y0) * (x2 - x0),
            u1 == x1 - x0 && u2 == x2 - x0 && v1 == y1 - y0 && v2 == y2 - y0,
    ;
    assert(e1 * v1 + e2 * v2 == area * py) by (nonlinear_arith)
        requires
            e1 == v2 * px - u2 * py && e2 == u1 * py - v1 * px && area == u1 * v2 - v1 * u2,
    ;
    assert(e0 * y0 + e1 * y1 + e2 * y2 == area * y) by (nonlinear_arith)
        requires
            e0 + e1 + e2 == area,
            e1 * v1 + e2 * v2 == area * py,
            v1 == y1 - y0 && v2 == y2 - y0 && py == y - y0,
    ;
}

} // verus!

verus! {

/// Law: for a positive-area triangle a pixel with no negative edge
/// function always lies inside the triangle's bounding box, so `covered`
/// is exactly "no edge function is negative": a pixel is written if and
/// only if its center passes the three edge tests and the depth test.
pub proof fn lemma_covered_is_edge_test(trig: [ScreenVertex; 3], x: int, y: int)
    requires
        area_spec(trig) > 0,
    ensures
        covered(trig, x, y) == (edge0_spec(trig, x, y) >= 0 && edge1_spec(trig, x, y) >= 0
            && edge2_spec(trig, x, y) >= 0),
{
    if edge0_spec(trig, x, y) >= 0 && edge1_spec(trig, x, y) >= 0 && edge2_spec(trig, x, y) >= 0 {
        let e0 = edge0_spec(trig, x, y);
        let e1 = edge1_spec(trig, x, y);
        let e2 = edge2_spec(trig, x, y);
        let area = area_spec(trig);
        lemma_edge_sum(trig, x, y);
        lemma_barycentric_x(trig, x, y);
        lemma_barycentric_y(trig, x, y);
        let mnx = min3(trig[0].x as int, trig[1].x as int, trig[2].x as int);
        let mxx = max3(trig[0].x as int, trig[1].x as int, trig[2].x as int);
        let mny = min3(trig[0].y as int, trig[1].y as int, trig[2].y as int);
        let mxy = max3(trig[0].y as int, trig[1].y as int, trig[2].y as int);
        assert(e0 * mnx <= e0 * (trig[0].x as int) && e0 * (trig[0].x as int) <= e0 * mxx)
            by (nonlinear_arith)
            requires
                e0 >= 0 && mnx <= trig[0].x as int <= mxx,
        ;
        assert(e1 * mnx <= e1 * (trig[1].x as int) && e1 * (trig[1].x as int) <= e1 * mxx)
            by (nonlinear_arith)
            requires
                e1 >= 0 && mnx <= trig[1].x as int <= mxx,
        ;
        assert(e2 * mnx <= e2 * (trig[2].x as int) && e2 * (trig[2].x as int) <= e2 * mxx)
            by (nonlinear_arith)
            requires
                e2 >= 0 && mnx <= trig[2].x as int <= mxx,
        ;
        assert(e0 * mnx + e1 * mnx + e2 * mnx == area * mnx && e0 * mxx + e1 * mxx + e2 * mxx
            == area * mxx) by (nonlinear_arith)
            requires
                e0 + e1 + e2 == area,
        ;
        assert(area * mnx <= area * x && area * x <= area * mxx);
        assert(mnx <= x && x <= mxx) by (nonlinear_arith)
            requires
                area > 0 && area * mnx <= area * x && area * x <= area * mxx,
        ;
        assert(e0 * mny <= e0 * (trig[0].y as int) && e0 * (trig[0].y as int) <= e0 * mxy)
            by (nonlinear_arith)
            requires
                e0 >= 0 && mny <= trig[0].y as int <= mxy,
        ;
        assert(e1 * mny <= e1 * (trig[1].y as int) && e1 * (trig[1].y as int) <= e1 * mxy)
            by (nonlinear_arith)
            requires
                e1 >= 0 && mny <= trig[1].y as int <= mxy,
        ;
        assert(e2 * mny <= e2 * (trig[2].y as int) && e2 * (trig[2].y as int) <= e2 * mxy)
            by (nonlinear_arith)
            requires
                e2 >= 0 && mny <= trig[2].y as int <= mxy,
        ;
        assert(e0 * mny + e1 * mny + e2 * mny == area * mny && e0 * mxy + e1 * mxy + e2 * mxy
            == area * mxy) by (nonlinear_arith)
            requires
                e0 + e1 + e2 == area,
        ;
        assert(area * mny <= area * y && area * y <= area * mxy);
        assert(mny <= y && y <= mxy) by (nonlinear_arith)
            requires
                area > 0 && area * mny <= area * y && area * y <= area * mxy,
        ;
    }
}

} // verus!
