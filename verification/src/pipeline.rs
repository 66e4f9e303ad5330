//! The geometry pipeline from clip space to screen space.
//!
//! The caller transforms model-space positions by the combined
//! projection-view-model matrix and hands the pipeline clip-space vertices
//! in 16.16 fixed point.  The pipeline assembles triangles from the index
//! buffer three indices at a time, applies the face-culling policy, clips
//! each survivor against the frustum, maps the clipped vertices to device
//! coordinates (perspective divide, then the viewport scale with y and z
//! inverted), and maps the interpolants to 8-bit screen attributes —
//! directly for Gouraud RGB, or as `(255 * (1 - s), 255 * t, 0)` on the
//! texture path.

use vstd::prelude::*;
use vstd::arithmetic::div_mod::{
    lemma_div_is_ordered,
    lemma_div_is_ordered_by_denominator,
    lemma_div_multiples_vanish,
    lemma_div_pos_is_pos,
};
use crate::clip::{clip, clip_spec, ClipVertex, COORD_LIMIT, FP_ONE};
use crate::cull::{cull_action, cull_action_spec, CullAction, CullMode, FrontFace};
use crate::vertex::ScreenVertex;

verus! {

/// Why the pipeline rejected a draw.
#[derive(Copy, Clone, PartialEq, Eq, Structural, Debug)]
pub enum GeometryError {
    /// The index buffer length is not a multiple of three.
    IndexCount,
    /// An index points past the vertex buffer.
    IndexRange,
    /// A clipped vertex fell outside the viewport's range (a broken
    /// projection matrix).
    OutOfView,
}

/// Fixed-point normalized device coordinate `c / w`, truncated toward zero.
pub open spec fn ndc_spec(c: int, w: int) -> int
    recommends
        w >= 1,
{
    if c >= 0 {
        (c * 65536) / w
    } else {
        -((-c * 65536) / w)
    }
}

/// Device column from a clip coordinate: `(ndc * 0.5 + 0.5) * (width - 1)`.
pub open spec fn device_x_spec(c: int, w: int, width: int) -> int {
    ((ndc_spec(c, w) + 65536) * (width - 1)) / 131072
}

/// Device row: y is inverted, `(-ndc * 0.5 + 0.5) * (height - 1)`.
pub open spec fn device_y_spec(c: int, w: int, height: int) -> int {
    ((65536 - ndc_spec(c, w)) * (height - 1)) / 131072
}

/// Device depth: z is inverted and scaled to 16 bits, so nearer geometry
/// gets the larger value.
pub open spec fn device_z_spec(c: int, w: int) -> int {
    ((65536 - ndc_spec(c, w)) * 65535) / 131072
}

/// An 8-bit screen attribute from a 16.16 interpolant in `[0, 1]`.
pub open spec fn attr_to_u8_spec(a: int) -> int {
    (a * 255) / 65536
}

/// A clip vertex the viewport can map: strictly positive `w`, every
/// coordinate within `[-w, w]`, and interpolants within `[0, 1]`.
pub open spec fn in_view(v: ClipVertex) -> bool {
    &&& v.pos[3] >= 1
    &&& -v.pos[3] <= v.pos[0] <= v.pos[3]
    &&& -v.pos[3] <= v.pos[1] <= v.pos[3]
    &&& -v.pos[3] <= v.pos[2] <= v.pos[3]
    &&& 0 <= v.r_s <= FP_ONE
    &&& 0 <= v.g_t <= FP_ONE
    &&& 0 <= v.b <= FP_ONE
}

/// The screen vertex a clip vertex maps to.
pub open spec fn screen_spec(v: ClipVertex, texture: bool, width: int, height: int) -> ScreenVertex {
    ScreenVertex {
        x: device_x_spec(v.pos[0] as int, v.pos[3] as int, width) as u16,
        y: device_y_spec(v.pos[1] as int, v.pos[3] as int, height) as u16,
        z: device_z_spec(v.pos[2] as int, v.pos[3] as int) as u16,
        r_s: if texture {
            attr_to_u8_spec(FP_ONE - v.r_s)
        } else {
            attr_to_u8_spec(v.r_s as int)
        } as u8,
        g_t: attr_to_u8_spec(v.g_t as int) as u8,
        b: if texture {
            0
        } else {
            attr_to_u8_spec(v.b as int)
        } as u8,
    }
}

/// The fixed-point NDC value keeps the magnitude bound of its input.
proof fn lemma_ndc_bounds(c: int, w: int)
    requires
        w >= 1,
        -w <= c <= w,
    ensures
        -65536 <= ndc_spec(c, w) <= 65536,
{
    if c >= 0 {
        let p = c * 65536;
        assert(c * 65536 >= 0 && c * 65536 <= w * 65536) by (nonlinear_arith)
            requires
                0 <= c <= w,
        ;
        lemma_div_pos_is_pos(p, w);
        lemma_div_is_ordered(p, w * 65536int, w);
        assert(w * 65536 == 65536 * w) by (nonlinear_arith);
        lemma_div_multiples_vanish(65536, w);
    } else {
        let p = -c * 65536;
        assert(-c * 65536 >= 0 && -c * 65536 <= w * 65536) by (nonlinear_arith)
            requires
                0 < -c <= w,
        ;
        lemma_div_pos_is_pos(p, w);
        lemma_div_is_ordered(p, w * 65536int, w);
        assert(w * 65536 == 65536 * w) by (nonlinear_arith);
        lemma_div_multiples_vanish(65536, w);
    }
}

/// The device coordinates of an in-view vertex land inside the viewport:
/// `x` within the width, `y` within the height, `z` within 16 bits.
pub proof fn lemma_device_ranges(c: int, w: int, extent: int)
    requires
        w >= 1,
        -w <= c <= w,
        1 <= extent <= 65536,
    ensures
        0 <= ((ndc_spec(c, w) + 65536) * (extent - 1)) / 131072 < extent,
        0 <= ((65536 - ndc_spec(c, w)) * (extent - 1)) / 131072 < extent,
{
    lemma_ndc_bounds(c, w);
    let up = ndc_spec(c, w) + 65536;
    let down = 65536 - ndc_spec(c, w);
    assert(0 <= up <= 131072 && 0 <= down <= 131072);
    assert(up * (extent - 1) >= 0 && down * (extent - 1) >= 0 && up * (extent - 1) <= 131072 * (
    extent - 1) && down * (extent - 1) <= 131072 * (extent - 1)) by (nonlinear_arith)
        requires
            0 <= up <= 131072 && 0 <= down <= 131072 && extent >= 1,
    ;
    lemma_div_pos_is_pos(up * (extent - 1), 131072);
    lemma_div_pos_is_pos(down * (extent - 1), 131072);
    lemma_div_is_ordered(up * (extent - 1), 131072 * (extent - 1), 131072);
    lemma_div_is_ordered(down * (extent - 1), 131072 * (extent - 1), 131072);
    lemma_div_multiples_vanish(extent - 1, 131072);
    assert(131072 * (extent - 1) == (extent - 1) * 131072) by (nonlinear_arith);
}

/// The 8-bit attribute mapping stays within a byte for interpolants in
/// `[0, 1]`.
proof fn lemma_attr_range(a: int)
    requires
        0 <= a <= 65536,
    ensures
        0 <= attr_to_u8_spec(a) <= 255,
{
    let p = a * 255;
    assert(a * 255 >= 0 && a * 255 <= 65536int * 255) by (nonlinear_arith)
        requires
            0 <= a <= 65536,
    ;
    lemma_div_pos_is_pos(p, 65536);
    lemma_div_is_ordered(p, 65536int * 255, 65536);
    lemma_div_multiples_vanish(255, 65536);
}

/// Fixed-point NDC of one coordinate.
fn ndc(c: i64, w: i64) -> (r: i64)
    requires
        1 <= w <= COORD_LIMIT,
        -COORD_LIMIT <= c <= COORD_LIMIT,
    ensures
        r == ndc_spec(c as int, w as int),
        -0x2000_0000_0000 <= r <= 0x2000_0000_0000,
{
    proof {
        if c >= 0 {
            let p = c as int * 65536;
            lemma_div_pos_is_pos(p, w as int);
            lemma_div_is_ordered_by_denominator(p, 1, w as int);
        } else {
            let p = -c as int * 65536;
            lemma_div_pos_is_pos(p, w as int);
            lemma_div_is_ordered_by_denominator(p, 1, w as int);
        }
    }
    if c >= 0 {
        (c * 65536) / w
    } else {
        -((-c * 65536) / w)
    }
}

/// Map one in-view clip vertex to its screen vertex.
fn screen_vertex(v: &ClipVertex, texture: bool, width: usize, height: usize) -> (s: ScreenVertex)
    requires
        v.wf(),
        in_view(*v),
        1 <= width <= 2048,
        1 <= height <= 2048,
    ensures
        s == screen_spec(*v, texture, width as int, height as int),
        s.wf(),
        (s.x as int) < width,
        (s.y as int) < height,
{
    proof {
        lemma_device_ranges(v.pos[0] as int, v.pos[3] as int, width as int);
        lemma_device_ranges(v.pos[1] as int, v.pos[3] as int, height as int);
        lemma_device_ranges(v.pos[2] as int, v.pos[3] as int, 65536);
        lemma_attr_range(v.r_s as int);
        lemma_attr_range(FP_ONE - v.r_s);
        lemma_attr_range(v.g_t as int);
        lemma_attr_range(v.b as int);
    }
    let w = v.pos[3];
    let nx = ndc(v.pos[0], w);
    let ny = ndc(v.pos[1], w);
    let nz = ndc(v.pos[2], w);
    let x = ((nx + 65536) * (width as i64 - 1)) / 131072;
    let y = ((65536 - ny) * (height as i64 - 1)) / 131072;
    let z = ((65536 - nz) * 65535) / 131072;
    let r_s = if texture {
        ((FP_ONE - v.r_s) * 255) / 65536
    } else {
        (v.r_s * 255) / 65536
    };
    let g_t = (v.g_t * 255) / 65536;
    let b = if texture {
        0
    } else {
        (v.b * 255) / 65536
    };
    ScreenVertex {
        x: x as u16,
        y: y as u16,
        z: z as u16,
        r_s: r_s as u8,
        g_t: g_t as u8,
        b: b as u8,
    }
}

} // verus!

verus! {

/// The triangle with vertices 1 and 2 exchanged.
pub open spec fn swap12(tri: [ClipVertex; 3]) -> [ClipVertex; 3] {
    [tri[0], tri[2], tri[1]]
}

/// The triangle as the cull stage sees it: a counter-clockwise front face
/// exchanges vertices 1 and 2 up front.
pub open spec fn preswapped(tri: [ClipVertex; 3], face: FrontFace) -> [ClipVertex; 3] {
    if face == FrontFace::CounterClockwise {
        swap12(tri)
    } else {
        tri
    }
}

/// The signed twice-area of the triangle's fixed-point NDC projection;
/// zero (indeterminate) when any vertex has a nonpositive `w`.
pub open spec fn ndc_orient(tri: [ClipVertex; 3]) -> int {
    if tri[0].pos[3] >= 1 && tri[1].pos[3] >= 1 && tri[2].pos[3] >= 1 {
        let ax = ndc_spec(tri[0].pos[0] as int, tri[0].pos[3] as int);
        let ay = ndc_spec(tri[0].pos[1] as int, tri[0].pos[3] as int);
        let bx = ndc_spec(tri[1].pos[0] as int, tri[1].pos[3] as int);
        let by = ndc_spec(tri[1].pos[1] as int, tri[1].pos[3] as int);
        let cx = ndc_spec(tri[2].pos[0] as int, tri[2].pos[3] as int);
        let cy = ndc_spec(tri[2].pos[1] as int, tri[2].pos[3] as int);
        (bx - ax) * (cy - ay) - (by - ay) * (cx - ax)
    } else {
        0
    }
}

/// What the cull stage leaves of one triangle: nothing, the pre-swapped
/// triangle, or the pre-swapped triangle with its winding reversed again.
pub open spec fn after_cull(tri: [ClipVertex; 3], mode: CullMode, face: FrontFace) -> Option<[ClipVertex; 3]> {
    let pre = preswapped(tri, face);
    let o = ndc_orient(pre);
    match cull_action_spec(mode, o > 0, o < 0) {
        CullAction::Skip => Option::None,
        CullAction::Emit => Option::Some(pre),
        CullAction::EmitSwapped => Option::Some(swap12(pre)),
    }
}

/// The screen triangle a clip triangle maps to.
pub open spec fn screen_tri(
    t: [ClipVertex; 3],
    texture: bool,
    width: int,
    height: int,
) -> [ScreenVertex; 3] {
    [
        screen_spec(t[0], texture, width, height),
        screen_spec(t[1], texture, width, height),
        screen_spec(t[2], texture, width, height),
    ]
}

/// The clip triangles one assembled triangle leaves after culling and
/// clipping.
pub open spec fn emitted_spec(tri: [ClipVertex; 3], mode: CullMode, face: FrontFace) -> Seq<
    [ClipVertex; 3],
> {
    match after_cull(tri, mode, face) {
        Option::None => Seq::empty(),
        Option::Some(t) => clip_spec(t),
    }
}

/// Everything one assembled triangle contributes to the screen stream.
pub open spec fn process_spec(
    tri: [ClipVertex; 3],
    mode: CullMode,
    face: FrontFace,
    texture: bool,
    width: int,
    height: int,
) -> Seq<[ScreenVertex; 3]> {
    Seq::new(
        emitted_spec(tri, mode, face).len(),
        |i: int| screen_tri(emitted_spec(tri, mode, face)[i], texture, width, height),
    )
}

/// Every vertex the triangle leaves after clipping can be viewport-mapped.
pub open spec fn tri_ok(tri: [ClipVertex; 3], mode: CullMode, face: FrontFace) -> bool {
    forall|i: int, j: int|
        0 <= i < emitted_spec(tri, mode, face).len() && 0 <= j < 3 ==> in_view(
            #[trigger] emitted_spec(tri, mode, face)[i][j],
        )
}

/// Whether the vertex is viewport-mappable.
fn check_in_view(v: &ClipVertex) -> (r: bool)
    ensures
        r == in_view(*v),
{
    v.pos[3] >= 1 && -v.pos[3] <= v.pos[0] && v.pos[0] <= v.pos[3] && -v.pos[3] <= v.pos[1]
        && v.pos[1] <= v.pos[3] && -v.pos[3] <= v.pos[2] && v.pos[2] <= v.pos[3] && 0 <= v.r_s
        && v.r_s <= FP_ONE && 0 <= v.g_t && v.g_t <= FP_ONE && 0 <= v.b && v.b <= FP_ONE
}

/// The sign of the NDC signed area, as the two flags the cull policy reads.
fn orient_flags(tri: &[ClipVertex; 3]) -> (r: (bool, bool))
    requires
        forall|i: int| 0 <= i < 3 ==> (#[trigger] tri[i]).wf(),
    ensures
        r.0 == (ndc_orient(*tri) > 0),
        r.1 == (ndc_orient(*tri) < 0),
        !(r.0 && r.1),
{
    if tri[0].pos[3] >= 1 && tri[1].pos[3] >= 1 && tri[2].pos[3] >= 1 {
        let ax = ndc(tri[0].pos[0], tri[0].pos[3]);
        let ay = ndc(tri[0].pos[1], tri[0].pos[3]);
        let bx = ndc(tri[1].pos[0], tri[1].pos[3]);
        let by = ndc(tri[1].pos[1], tri[1].pos[3]);
        let cx = ndc(tri[2].pos[0], tri[2].pos[3]);
        let cy = ndc(tri[2].pos[1], tri[2].pos[3]);
        proof {
            let lim = 0x4000_0000_0000int;
            assert((bx - ax) as i128 * (cy - ay) as i128 <= lim * lim && (bx - ax) as i128 * (cy
                - ay) as i128 >= -(lim * lim) && (by - ay) as i128 * (cx - ax) as i128 <= lim * lim
                && (by - ay) as i128 * (cx - ax) as i128 >= -(lim * lim)) by (nonlinear_arith)
                requires
                    -lim <= bx - ax <= lim && -lim <= cy - ay <= lim && -lim <= by - ay <= lim
                        && -lim <= cx - ax <= lim,
            ;
        }
        let o: i128 = (bx - ax) as i128 * (cy - ay) as i128 - (by - ay) as i128 * (cx - ax)
            as i128;
        (o > 0, o < 0)
    } else {
        (false, false)
    }
}

/// Cull and clip one assembled triangle and map the survivors to screen
/// space; fails when a clipped vertex cannot be viewport-mapped.
fn process_triangle(
    tri: [ClipVertex; 3],
    mode: CullMode,
    face: FrontFace,
    texture: bool,
    width: usize,
    height: usize,
) -> (r: Result<Vec<[ScreenVertex; 3]>, GeometryError>)
    requires
        forall|i: int| 0 <= i < 3 ==> (#[trigger] tri[i]).wf(),
        1 <= width <= 2048,
        1 <= height <= 2048,
    ensures
        r matches Err(e) ==> e == GeometryError::OutOfView && !tri_ok(tri, mode, face),
        r matches Ok(v) ==> {
            &&& tri_ok(tri, mode, face)
            &&& v@ == process_spec(tri, mode, face, texture, width as int, height as int)
            &&& forall|i: int, j: int|
                0 <= i < v@.len() && 0 <= j < 3 ==> (#[trigger] v@[i][j]).wf() && (
                v@[i][j].x as int) < width && (v@[i][j].y as int) < height
        },
{
    let pre: [ClipVertex; 3] = if face == FrontFace::CounterClockwise {
        [tri[0], tri[2], tri[1]]
    } else {
        tri
    };
    proof {
        assert(pre == preswapped(tri, face));
    }
    let (orient_positive, orient_negative) = orient_flags(&pre);
    let action = cull_action(mode, orient_positive, orient_negative);
    let t: [ClipVertex; 3] = match action {
        CullAction::Skip => {
            proof {
                assert(after_cull(tri, mode, face) is None);
                assert(emitted_spec(tri, mode, face) =~= Seq::<[ClipVertex; 3]>::empty());
            }
            let empty: Vec<[ScreenVertex; 3]> = Vec::new();
            proof {
                assert(empty@ =~= process_spec(
                    tri,
                    mode,
                    face,
                    texture,
                    width as int,
                    height as int,
                ));
            }
            return Ok(empty);
        },
        CullAction::Emit => pre,
        CullAction::EmitSwapped => [pre[0], pre[2], pre[1]],
    };
    proof {
        assert(after_cull(tri, mode, face) == Option::Some(t));
    }
    let polys = clip(t);
    let ghost cs = clip_spec(t);
    proof {
        assert(emitted_spec(tri, mode, face) == cs);
    }
    let mut out: Vec<[ScreenVertex; 3]> = Vec::new();
    let n = polys.len();
    let mut i: usize = 0;
    while i < n
        invariant
            n == polys@.len(),
            i <= n,
            polys@ == cs,
            cs == clip_spec(t),
            cs == emitted_spec(tri, mode, face),
            after_cull(tri, mode, face) == Option::Some(t),
            1 <= width <= 2048,
            1 <= height <= 2048,
            forall|a: int, b: int| 0 <= a < cs.len() && 0 <= b < 3 ==> (#[trigger] cs[a][b]).wf(),
            forall|a: int, b: int| 0 <= a < i && 0 <= b < 3 ==> in_view(
                #[trigger] emitted_spec(tri, mode, face)[a][b],
            ),
            out@.len() == i,
            forall|a: int|
                0 <= a < i ==> out@[a] == screen_tri(cs[a], texture, width as int, height as int),
            forall|a: int, b: int|
                0 <= a < i && 0 <= b < 3 ==> (#[trigger] out@[a][b]).wf() && (out@[a][b].x as int)
                    < width && (out@[a][b].y as int) < height,
        decreases n - i,
    {
        let ct = polys[i];
        if !(check_in_view(&ct[0]) && check_in_view(&ct[1]) && check_in_view(&ct[2])) {
            proof {
                let ii = i as int;
                assert(ct == cs[ii]);
                assert(emitted_spec(tri, mode, face)[ii] == ct);
                assert(emitted_spec(tri, mode, face)[ii][0] == ct[0 as int]);
                assert(emitted_spec(tri, mode, face)[ii][1] == ct[1 as int]);
                assert(emitted_spec(tri, mode, face)[ii][2] == ct[2 as int]);
                assert(!tri_ok(tri, mode, face));
            }
            return Err(GeometryError::OutOfView);
        }
        let sv: [ScreenVertex; 3] = [
            screen_vertex(&ct[0], texture, width, height),
            screen_vertex(&ct[1], texture, width, height),
            screen_vertex(&ct[2], texture, width, height),
        ];
        proof {
            assert(sv == screen_tri(cs[i as int], texture, width as int, height as int));
        }
        out.push(sv);
        i += 1;
    }
    proof {
        assert(out@ =~= process_spec(tri, mode, face, texture, width as int, height as int));
    }
    Ok(out)
}

} // verus!

verus! {

/// Triangle `k` of the draw: the vertices its three indices name.
pub open spec fn assembled(vertices: Seq<ClipVertex>, indices: Seq<u16>, k: int) -> [ClipVertex; 3] {
    [
        vertices[indices[3 * k] as int],
        vertices[indices[3 * k + 1] as int],
        vertices[indices[3 * k + 2] as int],
    ]
}

/// The screen triangles of the first `k` assembled triangles, concatenated
/// in order.
pub open spec fn pipeline_upto(
    vertices: Seq<ClipVertex>,
    indices: Seq<u16>,
    mode: CullMode,
    face: FrontFace,
    texture: bool,
    width: int,
    height: int,
    k: int,
) -> Seq<[ScreenVertex; 3]>
    decreases k,
{
    if k <= 0 {
        Seq::empty()
    } else {
        pipeline_upto(vertices, indices, mode, face, texture, width, height, k - 1)
            + process_spec(assembled(vertices, indices, k - 1), mode, face, texture, width, height)
    }
}

/// The whole draw's screen triangles.
pub open spec fn pipeline_spec(
    vertices: Seq<ClipVertex>,
    indices: Seq<u16>,
    mode: CullMode,
    face: FrontFace,
    texture: bool,
    width: int,
    height: int,
) -> Seq<[ScreenVertex; 3]> {
    pipeline_upto(
        vertices,
        indices,
        mode,
        face,
        texture,
        width,
        height,
        indices.len() as int / 3,
    )
}

/// Run the geometry pipeline over a vertex and index buffer.
#[verifier::rlimit(30)]
fn transform_core(
    vertices: &[ClipVertex],
    indices: &[u16],
    mode: CullMode,
    face: FrontFace,
    texture: bool,
    width: usize,
    height: usize,
) -> (r: Result<Vec<[ScreenVertex; 3]>, GeometryError>)
    requires
        forall|i: int| 0 <= i < vertices@.len() ==> (#[trigger] vertices@[i]).wf(),
        1 <= width <= 2048,
        1 <= height <= 2048,
    ensures
        (r == Result::<Vec<[ScreenVertex; 3]>, GeometryError>::Err(GeometryError::IndexCount))
            == (indices@.len() % 3 != 0),
        r == Result::<Vec<[ScreenVertex; 3]>, GeometryError>::Err(GeometryError::IndexRange)
            ==> exists|i: int|
            0 <= i < indices@.len() && #[trigger] (indices@[i] as int) >= vertices@.len(),
        r == Result::<Vec<[ScreenVertex; 3]>, GeometryError>::Err(GeometryError::OutOfView)
            ==> exists|k: int|
            0 <= k < indices@.len() / 3 && !tri_ok(
                #[trigger] assembled(vertices@, indices@, k),
                mode,
                face,
            ),
        r matches Ok(v) ==> {
            &&& indices@.len() % 3 == 0
            &&& (forall|i: int|
                0 <= i < indices@.len() ==> #[trigger] (indices@[i] as int) < vertices@.len())
            &&& (forall|k: int|
                0 <= k < indices@.len() / 3 ==> tri_ok(
                    #[trigger] assembled(vertices@, indices@, k),
                    mode,
                    face,
                ))
            &&& v@ == pipeline_spec(
                vertices@,
                indices@,
                mode,
                face,
                texture,
                width as int,
                height as int,
            )
            &&& forall|i: int, j: int|
                0 <= i < v@.len() && 0 <= j < 3 ==> (#[trigger] v@[i][j]).wf() && (
                v@[i][j].x as int) < width && (v@[i][j].y as int) < height
        },
{
    if indices.len() % 3 != 0 {
        return Err(GeometryError::IndexCount);
    }
    let vn = vertices.len();
    let m = indices.len();
    let mut i: usize = 0;
    while i < m
        invariant
            m == indices@.len(),
            m % 3 == 0,
            vn == vertices@.len(),
            i <= m,
            forall|j: int| 0 <= j < i ==> #[trigger] (indices@[j] as int) < vn,
        decreases m - i,
    {
        if indices[i] as usize >= vn {
            return Err(GeometryError::IndexRange);
        }
        i += 1;
    }

    let n_tris = m / 3;
    let mut out: Vec<[ScreenVertex; 3]> = Vec::new();
    let mut k: usize = 0;
    while k < n_tris
        invariant
            m == indices@.len(),
            vn == vertices@.len(),
            m % 3 == 0,
            n_tris == m / 3,
            k <= n_tris,
            1 <= width <= 2048,
            1 <= height <= 2048,
            forall|i2: int| 0 <= i2 < vertices@.len() ==> (#[trigger] vertices@[i2]).wf(),
            forall|j: int| 0 <= j < m ==> #[trigger] (indices@[j] as int) < vn,
            forall|k2: int|
                0 <= k2 < k ==> tri_ok(#[trigger] assembled(vertices@, indices@, k2), mode, face),
            out@ == pipeline_upto(
                vertices@,
                indices@,
                mode,
                face,
                texture,
                width as int,
                height as int,
                k as int,
            ),
            forall|i2: int, j: int|
                0 <= i2 < out@.len() && 0 <= j < 3 ==> (#[trigger] out@[i2][j]).wf() && (
                out@[i2][j].x as int) < width && (out@[i2][j].y as int) < height,
        decreases n_tris - k,
    {
        proof {
            assert(3 * k + 2 < m) by {
                vstd::arithmetic::div_mod::lemma_fundamental_div_mod(m as int, 3);
            }
        }
        let tri: [ClipVertex; 3] = [
            vertices[indices[3 * k] as usize],
            vertices[indices[3 * k + 1] as usize],
            vertices[indices[3 * k + 2] as usize],
        ];
        proof {
            assert(tri == assembled(vertices@, indices@, k as int));
        }
        match process_triangle(tri, mode, face, texture, width, height) {
            Ok(mut tris) => {
                out.append(&mut tris);
            },
            Err(_) => {
                proof {
                    assert(!tri_ok(assembled(vertices@, indices@, k as int), mode, face));
                }
                return Err(GeometryError::OutOfView);
            },
        }
        k += 1;
    }
    Ok(out)
}

/// Run the pipeline for Gouraud shading: the interpolants are RGB and map
/// to screen attributes as `value * 255`.
pub fn transform_gouraud(
    vertices: &[ClipVertex],
    indices: &[u16],
    mode: CullMode,
    face: FrontFace,
    width: usize,
    height: usize,
) -> (r: Result<Vec<[ScreenVertex; 3]>, GeometryError>)
    requires
        forall|i: int| 0 <= i < vertices@.len() ==> (#[trigger] vertices@[i]).wf(),
        1 <= width <= 2048,
        1 <= height <= 2048,
    ensures
        (r == Result::<Vec<[ScreenVertex; 3]>, GeometryError>::Err(GeometryError::IndexCount))
            == (indices@.len() % 3 != 0),
        r == Result::<Vec<[ScreenVertex; 3]>, GeometryError>::Err(GeometryError::IndexRange)
            ==> exists|i: int|
            0 <= i < indices@.len() && #[trigger] (indices@[i] as int) >= vertices@.len(),
        r == Result::<Vec<[ScreenVertex; 3]>, GeometryError>::Err(GeometryError::OutOfView)
            ==> exists|k: int|
            0 <= k < indices@.len() / 3 && !tri_ok(
                #[trigger] assembled(vertices@, indices@, k),
                mode,
                face,
            ),
        r matches Ok(v) ==> v@ == pipeline_spec(
            vertices@,
            indices@,
            mode,
            face,
            false,
            width as int,
            height as int,
        ) && forall|i: int, j: int|
            0 <= i < v@.len() && 0 <= j < 3 ==> (#[trigger] v@[i][j]).wf() && (v@[i][j].x as int)
                < width && (v@[i][j].y as int) < height,
{
    transform_core(vertices, indices, mode, face, false, width, height)
}

/// Run the pipeline for texturing: the interpolants are S/T and map to
/// screen attributes as `(255 * (1 - s), 255 * t, 0)`.
pub fn transform_texture(
    vertices: &[ClipVertex],
    indices: &[u16],
    mode: CullMode,
    face: FrontFace,
    width: usize,
    height: usize,
) -> (r: Result<Vec<[ScreenVertex; 3]>, GeometryError>)
    requires
        forall|i: int| 0 <= i < vertices@.len() ==> (#[trigger] vertices@[i]).wf(),
        1 <= width <= 2048,
        1 <= height <= 2048,
    ensures
        (r == Result::<Vec<[ScreenVertex; 3]>, GeometryError>::Err(GeometryError::IndexCount))
            == (indices@.len() % 3 != 0),
        r == Result::<Vec<[ScreenVertex; 3]>, GeometryError>::Err(GeometryError::IndexRange)
            ==> exists|i: int|
            0 <= i < indices@.len() && #[trigger] (indices@[i] as int) >= vertices@.len(),
        r == Result::<Vec<[ScreenVertex; 3]>, GeometryError>::Err(GeometryError::OutOfView)
            ==> exists|k: int|
            0 <= k < indices@.len() / 3 && !tri_ok(
                #[trigger] assembled(vertices@, indices@, k),
                mode,
                face,
            ),
        r matches Ok(v) ==> v@ == pipeline_spec(
            vertices@,
            indices@,
            mode,
            face,
            true,
            width as int,
            height as int,
        ) && forall|i: int, j: int|
            0 <= i < v@.len() && 0 <= j < 3 ==> (#[trigger] v@[i][j]).wf() && (v@[i][j].x as int)
                < width && (v@[i][j].y as int) < height,
{
    transform_core(vertices, indices, mode, face, true, width, height)
}

} // verus!
