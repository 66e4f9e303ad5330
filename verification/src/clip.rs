//! Homogeneous clipping against the view frustum.
//!
//! Clip-space positions are held in 16.16 fixed point (65536 is one).  A
//! triangle is clipped against the six half-spaces `-w <= x`, `x <= w`,
//! `-w <= y`, `y <= w`, `-w <= z`, `z <= w` with the Sutherland-Hodgman
//! walk: per plane, each polygon edge emits its start vertex when strictly
//! inside and the edge's plane intersection when the edge straddles the
//! plane, unless the interpolation denominator is below a small threshold
//! (a degenerate edge).  Outcodes give the two shortcuts: a triangle whose
//! vertices all lie beyond one plane is culled outright, and one entirely
//! inside the frustum (with positive `w`) passes through unchanged.  The
//! clipped polygon is re-triangulated as a fan anchored on its first
//! vertex.

use vstd::prelude::*;
use vstd::arithmetic::div_mod::{lemma_div_is_ordered, lemma_div_pos_is_pos};
use vstd::arithmetic::mul::lemma_mul_inequality;

verus! {

/// One in 16.16 fixed point.
pub const FP_ONE: i64 = 65536;

/// Magnitude bound on every clip-space coordinate and attribute.
pub const COORD_LIMIT: i64 = 0x2000_0000;

/// Threshold under which an interpolation denominator counts as degenerate
/// (about 0.001 in 16.16 fixed point).
pub const DENOM_EPSILON: i64 = 65;

/// Outcode bits, one per frustum plane.
pub const CLIP_NEG_X: u8 = 0x01;

pub const CLIP_POS_X: u8 = 0x02;

pub const CLIP_NEG_Y: u8 = 0x04;

pub const CLIP_POS_Y: u8 = 0x08;

pub const CLIP_NEG_Z: u8 = 0x10;

pub const CLIP_POS_Z: u8 = 0x20;

/// A clip-space vertex: homogeneous position and three interpolants
/// (RGB on the Gouraud path, S/T/zero on the texture path), all 16.16.
#[derive(Copy, Clone, Debug)]
pub struct ClipVertex {
    pub pos: [i64; 4],
    pub r_s: i64,
    pub g_t: i64,
    pub b: i64,
}

impl ClipVertex {
    /// Coordinates and attributes small enough that every interpolation
    /// stays inside 64 bits.
    pub open spec fn wf(self) -> bool {
        &&& -COORD_LIMIT <= self.pos[0] <= COORD_LIMIT
        &&& -COORD_LIMIT <= self.pos[1] <= COORD_LIMIT
        &&& -COORD_LIMIT <= self.pos[2] <= COORD_LIMIT
        &&& -COORD_LIMIT <= self.pos[3] <= COORD_LIMIT
        &&& -COORD_LIMIT <= self.r_s <= COORD_LIMIT
        &&& -COORD_LIMIT <= self.g_t <= COORD_LIMIT
        &&& -COORD_LIMIT <= self.b <= COORD_LIMIT
    }

    /// The vertex lies strictly beyond the given frustum plane.
    pub open spec fn outside(self, plane: u8) -> bool {
        plane_sign(plane) * self.pos[plane_index(plane) as int] > self.pos[3]
    }

    /// The six-bit outcode naming every plane the vertex lies beyond.
    pub open spec fn outcode(self) -> u8 {
        (bit(self.outside(CLIP_NEG_X)) + 2 * bit(self.outside(CLIP_POS_X)) + 4 * bit(
            self.outside(CLIP_NEG_Y),
        ) + 8 * bit(self.outside(CLIP_POS_Y)) + 16 * bit(self.outside(CLIP_NEG_Z)) + 32 * bit(
            self.outside(CLIP_POS_Z),
        )) as u8
    }

    /// Compute the outcode: bit by bit, one sign test per plane.
    pub fn classify(&self) -> (code: u8)
        requires
            self.wf(),
        ensures
            code == self.outcode(),
    {
        let b0: u8 = if self.pos[0] < -self.pos[3] {
            1
        } else {
            0
        };
        let b1: u8 = if self.pos[0] > self.pos[3] {
            1
        } else {
            0
        };
        let b2: u8 = if self.pos[1] < -self.pos[3] {
            1
        } else {
            0
        };
        let b3: u8 = if self.pos[1] > self.pos[3] {
            1
        } else {
            0
        };
        let b4: u8 = if self.pos[2] < -self.pos[3] {
            1
        } else {
            0
        };
        let b5: u8 = if self.pos[2] > self.pos[3] {
            1
        } else {
            0
        };
        proof {
            assert(self.outside(CLIP_NEG_X) == (self.pos[0] < -self.pos[3]));
            assert(self.outside(CLIP_POS_X) == (self.pos[0] > self.pos[3]));
            assert(self.outside(CLIP_NEG_Y) == (self.pos[1] < -self.pos[3]));
            assert(self.outside(CLIP_POS_Y) == (self.pos[1] > self.pos[3]));
            assert(self.outside(CLIP_NEG_Z) == (self.pos[2] < -self.pos[3]));
            assert(self.outside(CLIP_POS_Z) == (self.pos[2] > self.pos[3]));
        }
        b0 + 2 * b1 + 4 * b2 + 8 * b3 + 16 * b4 + 32 * b5
    }
}

/// 1 for a set outcode bit, 0 for a clear one.
pub open spec fn bit(b: bool) -> int {
    if b {
        1
    } else {
        0
    }
}

/// The sign a plane's coordinate is scaled by in its sign test.
pub open spec fn plane_sign(plane: u8) -> int {
    if plane == CLIP_NEG_X || plane == CLIP_NEG_Y || plane == CLIP_NEG_Z {
        -1
    } else {
        1
    }
}

/// The coordinate a plane tests.
pub open spec fn plane_index(plane: u8) -> int {
    if plane == CLIP_NEG_X || plane == CLIP_POS_X {
        0
    } else if plane == CLIP_NEG_Y || plane == CLIP_POS_Y {
        1
    } else {
        2
    }
}

/// `plane` is one of the six frustum planes.
pub open spec fn valid_plane(plane: u8) -> bool {
    plane == CLIP_NEG_X || plane == CLIP_POS_X || plane == CLIP_NEG_Y || plane == CLIP_POS_Y
        || plane == CLIP_NEG_Z || plane == CLIP_POS_Z
}

/// The inside margin of a vertex against a plane: positive strictly inside,
/// zero on the plane, negative outside.
pub open spec fn margin(v: ClipVertex, plane: u8) -> int {
    v.pos[3] - plane_sign(plane) * v.pos[plane_index(plane) as int]
}

/// Truncating interpolation of one component from `c0` toward `c1` by the
/// ratio `num / den`; the result never leaves the interval between them.
pub open spec fn interp_component_spec(c0: int, c1: int, num: int, den: int) -> int {
    if c1 >= c0 {
        c0 + ((c1 - c0) * num) / den
    } else {
        c0 - ((c0 - c1) * num) / den
    }
}

/// The interpolated component lies between its endpoints.
proof fn lemma_interp_component_range(c0: int, c1: int, num: int, den: int)
    requires
        0 <= num <= den,
        1 <= den,
    ensures
        c1 >= c0 ==> c0 <= interp_component_spec(c0, c1, num, den) <= c1,
        c1 < c0 ==> c1 <= interp_component_spec(c0, c1, num, den) <= c0,
{
    if c1 >= c0 {
        let p = (c1 - c0) * num;
        assert((c1 - c0) * num >= 0) by (nonlinear_arith)
            requires
                c1 >= c0 && num >= 0,
        ;
        lemma_div_pos_is_pos(p, den);
        lemma_mul_inequality(num, den, c1 - c0);
        assert((c1 - c0) * num == num * (c1 - c0) && (c1 - c0) * den == den * (c1 - c0))
            by (nonlinear_arith);
        lemma_div_is_ordered(p, (c1 - c0) * den, den);
        vstd::arithmetic::div_mod::lemma_div_multiples_vanish(c1 - c0, den);
    } else {
        let p = (c0 - c1) * num;
        assert((c0 - c1) * num >= 0) by (nonlinear_arith)
            requires
                c0 > c1 && num >= 0,
        ;
        lemma_div_pos_is_pos(p, den);
        lemma_mul_inequality(num, den, c0 - c1);
        assert((c0 - c1) * num == num * (c0 - c1) && (c0 - c1) * den == den * (c0 - c1))
            by (nonlinear_arith);
        lemma_div_is_ordered(p, (c0 - c1) * den, den);
        vstd::arithmetic::div_mod::lemma_div_multiples_vanish(c0 - c1, den);
    }
}

/// Interpolate one 16.16 component.
fn interp_component(c0: i64, c1: i64, num: i64, den: i64) -> (r: i64)
    requires
        0 <= num <= den,
        1 <= den <= 4 * COORD_LIMIT,
        -COORD_LIMIT <= c0 <= COORD_LIMIT,
        -COORD_LIMIT <= c1 <= COORD_LIMIT,
    ensures
        r == interp_component_spec(c0 as int, c1 as int, num as int, den as int),
        -COORD_LIMIT <= r <= COORD_LIMIT,
{
    proof {
        lemma_interp_component_range(c0 as int, c1 as int, num as int, den as int);
        assert((c1 - c0) * num <= (2 * COORD_LIMIT) * (4 * COORD_LIMIT) && (c0 - c1) * num <= (2
            * COORD_LIMIT) * (4 * COORD_LIMIT)) by (nonlinear_arith)
            requires
                -COORD_LIMIT <= c0 <= COORD_LIMIT && -COORD_LIMIT <= c1 <= COORD_LIMIT && 0 <= num
                    <= 4 * COORD_LIMIT,
        ;
        assert((c1 - c0) * num >= 0 || (c0 - c1) * num >= 0) by (nonlinear_arith)
            requires
                num >= 0,
        ;
        assert(c1 >= c0 ==> (c1 - c0) * num >= 0) by (nonlinear_arith)
            requires
                num >= 0,
        ;
        assert(c1 < c0 ==> (c0 - c1) * num >= 0) by (nonlinear_arith)
            requires
                num >= 0,
        ;
    }
    if c1 >= c0 {
        c0 + ((c1 - c0) * num) / den
    } else {
        c0 - ((c0 - c1) * num) / den
    }
}

} // verus!

verus! {

/// The plane intersection of the edge `v0 -> v1`, interpolated component
/// by component with the exact integer ratio `margin(v0) / (margin(v0) -
/// margin(v1))`, normalized to a nonnegative numerator.
pub open spec fn intersect_spec(v0: ClipVertex, v1: ClipVertex, plane: u8) -> ClipVertex {
    let d0 = margin(v0, plane);
    let d1 = margin(v1, plane);
    let num = if d0 - d1 >= 0 {
        d0
    } else {
        -d0
    };
    let den = if d0 - d1 >= 0 {
        d0 - d1
    } else {
        d1 - d0
    };
    ClipVertex {
        pos: [
            interp_component_spec(v0.pos[0] as int, v1.pos[0] as int, num, den) as i64,
            interp_component_spec(v0.pos[1] as int, v1.pos[1] as int, num, den) as i64,
            interp_component_spec(v0.pos[2] as int, v1.pos[2] as int, num, den) as i64,
            interp_component_spec(v0.pos[3] as int, v1.pos[3] as int, num, den) as i64,
        ],
        r_s: interp_component_spec(v0.r_s as int, v1.r_s as int, num, den) as i64,
        g_t: interp_component_spec(v0.g_t as int, v1.g_t as int, num, den) as i64,
        b: interp_component_spec(v0.b as int, v1.b as int, num, den) as i64,
    }
}

/// What one polygon edge contributes against one plane: its start vertex
/// when strictly inside, then the edge's plane intersection when the edge
/// straddles the plane and the denominator is not degenerate.
pub open spec fn clip_edge_spec(v0: ClipVertex, v1: ClipVertex, plane: u8) -> Seq<ClipVertex> {
    let d0 = margin(v0, plane);
    let d1 = margin(v1, plane);
    let keep = if d0 > 0 {
        seq![v0]
    } else {
        Seq::<ClipVertex>::empty()
    };
    let straddle = (d0 > 0 && d1 <= 0) || (d0 <= 0 && d1 > 0);
    if straddle && (d0 - d1 > DENOM_EPSILON || d0 - d1 < -DENOM_EPSILON) {
        keep.push(intersect_spec(v0, v1, plane))
    } else {
        keep
    }
}

/// The contributions of the first `i` edges of the polygon; edge `i` runs
/// from vertex `i - 1` (the last vertex for `i == 0`) to vertex `i`.
pub open spec fn clip_plane_upto(src: Seq<ClipVertex>, plane: u8, i: int) -> Seq<ClipVertex>
    decreases i,
{
    if i <= 0 {
        Seq::empty()
    } else {
        clip_plane_upto(src, plane, i - 1) + clip_edge_spec(
            if i - 1 == 0 {
                src.last()
            } else {
                src[i - 2]
            },
            src[i - 1],
            plane,
        )
    }
}

/// The polygon clipped against one plane.
pub open spec fn clip_plane_spec(src: Seq<ClipVertex>, plane: u8) -> Seq<ClipVertex> {
    clip_plane_upto(src, plane, src.len() as int)
}

/// The triangle's polygon after clipping against all six planes in order.
pub open spec fn polygon_spec(tri: [ClipVertex; 3]) -> Seq<ClipVertex> {
    let p0 = seq![tri[0], tri[1], tri[2]];
    let p1 = clip_plane_spec(p0, CLIP_NEG_X);
    let p2 = clip_plane_spec(p1, CLIP_POS_X);
    let p3 = clip_plane_spec(p2, CLIP_NEG_Y);
    let p4 = clip_plane_spec(p3, CLIP_POS_Y);
    let p5 = clip_plane_spec(p4, CLIP_NEG_Z);
    clip_plane_spec(p5, CLIP_POS_Z)
}

/// A polygon re-triangulated as a fan anchored on its first vertex.
pub open spec fn fan_spec(poly: Seq<ClipVertex>) -> Seq<[ClipVertex; 3]> {
    Seq::new(
        if poly.len() >= 3 {
            (poly.len() - 2) as nat
        } else {
            0
        },
        |k: int| [poly[0], poly[k + 1], poly[k + 2]],
    )
}

/// All three vertices lie beyond the one given plane.
pub open spec fn all_outside(tri: [ClipVertex; 3], plane: u8) -> bool {
    tri[0].outside(plane) && tri[1].outside(plane) && tri[2].outside(plane)
}

/// Some single plane has the whole triangle beyond it.
pub open spec fn culled_spec(tri: [ClipVertex; 3]) -> bool {
    all_outside(tri, CLIP_NEG_X) || all_outside(tri, CLIP_POS_X) || all_outside(tri, CLIP_NEG_Y)
        || all_outside(tri, CLIP_POS_Y) || all_outside(tri, CLIP_NEG_Z) || all_outside(
        tri,
        CLIP_POS_Z,
    )
}

/// The vertex lies beyond no plane.
pub open spec fn fully_inside(v: ClipVertex) -> bool {
    !v.outside(CLIP_NEG_X) && !v.outside(CLIP_POS_X) && !v.outside(CLIP_NEG_Y) && !v.outside(
        CLIP_POS_Y,
    ) && !v.outside(CLIP_NEG_Z) && !v.outside(CLIP_POS_Z)
}

/// The triangle passes through unclipped: every vertex inside every plane,
/// with strictly positive `w`.
pub open spec fn pass_spec(tri: [ClipVertex; 3]) -> bool {
    fully_inside(tri[0]) && fully_inside(tri[1]) && fully_inside(tri[2]) && tri[0].pos[3] > 0
        && tri[1].pos[3] > 0 && tri[2].pos[3] > 0
}

/// What clipping one triangle yields: nothing when it lies beyond a single
/// plane, exactly the triangle when it is entirely inside the frustum, and
/// otherwise the fan over the polygon from the six-plane walk.
pub open spec fn clip_spec(tri: [ClipVertex; 3]) -> Seq<[ClipVertex; 3]> {
    if culled_spec(tri) {
        Seq::empty()
    } else if pass_spec(tri) {
        seq![tri]
    } else {
        fan_spec(polygon_spec(tri))
    }
}

/// Bit facts about a code assembled from six flags.
#[verifier::rlimit(30)]
proof fn lemma_code_bits(b0: u8, b1: u8, b2: u8, b3: u8, b4: u8, b5: u8)
    by (bit_vector)
    requires
        b0 <= 1,
        b1 <= 1,
        b2 <= 1,
        b3 <= 1,
        b4 <= 1,
        b5 <= 1,
    ensures
        ({
            let code = (b0 + 2 * b1 + 4 * b2 + 8 * b3 + 16 * b4 + 32 * b5) as u8;
            &&& code < 64
            &&& ((code & 0x01) != 0) == (b0 == 1)
            &&& ((code & 0x02) != 0) == (b1 == 1)
            &&& ((code & 0x04) != 0) == (b2 == 1)
            &&& ((code & 0x08) != 0) == (b3 == 1)
            &&& ((code & 0x10) != 0) == (b4 == 1)
            &&& ((code & 0x20) != 0) == (b5 == 1)
        }),
{
}

/// The outcode's bits name exactly the planes the vertex lies beyond.
proof fn lemma_outcode(v: ClipVertex)
    ensures
        v.outcode() < 64,
        ((v.outcode() & CLIP_NEG_X) != 0) == v.outside(CLIP_NEG_X),
        ((v.outcode() & CLIP_POS_X) != 0) == v.outside(CLIP_POS_X),
        ((v.outcode() & CLIP_NEG_Y) != 0) == v.outside(CLIP_NEG_Y),
        ((v.outcode() & CLIP_POS_Y) != 0) == v.outside(CLIP_POS_Y),
        ((v.outcode() & CLIP_NEG_Z) != 0) == v.outside(CLIP_NEG_Z),
        ((v.outcode() & CLIP_POS_Z) != 0) == v.outside(CLIP_POS_Z),
{
    let b0: u8 = if v.outside(CLIP_NEG_X) {
        1
    } else {
        0
    };
    let b1: u8 = if v.outside(CLIP_POS_X) {
        1
    } else {
        0
    };
    let b2: u8 = if v.outside(CLIP_NEG_Y) {
        1
    } else {
        0
    };
    let b3: u8 = if v.outside(CLIP_POS_Y) {
        1
    } else {
        0
    };
    let b4: u8 = if v.outside(CLIP_NEG_Z) {
        1
    } else {
        0
    };
    let b5: u8 = if v.outside(CLIP_POS_Z) {
        1
    } else {
        0
    };
    lemma_code_bits(b0, b1, b2, b3, b4, b5);
    assert(v.outcode() == (b0 + 2 * b1 + 4 * b2 + 8 * b3 + 16 * b4 + 32 * b5) as u8);
}

/// How the combined outcodes decide the two shortcuts.
#[verifier::rlimit(30)]
proof fn lemma_code_combinations(c0: u8, c1: u8, c2: u8)
    by (bit_vector)
    requires
        c0 < 64,
        c1 < 64,
        c2 < 64,
    ensures
        ((c0 & c1 & c2) != 0) == (((c0 & 0x01) != 0 && (c1 & 0x01) != 0 && (c2 & 0x01) != 0) || (
        (c0 & 0x02) != 0 && (c1 & 0x02) != 0 && (c2 & 0x02) != 0) || ((c0 & 0x04) != 0 && (c1
            & 0x04) != 0 && (c2 & 0x04) != 0) || ((c0 & 0x08) != 0 && (c1 & 0x08) != 0 && (c2
            & 0x08) != 0) || ((c0 & 0x10) != 0 && (c1 & 0x10) != 0 && (c2 & 0x10) != 0) || ((c0
            & 0x20) != 0 && (c1 & 0x20) != 0 && (c2 & 0x20) != 0)),
        ((c0 | c1 | c2) == 0) == (c0 == 0 && c1 == 0 && c2 == 0),
        (c0 == 0) == ((c0 & 0x01) == 0 && (c0 & 0x02) == 0 && (c0 & 0x04) == 0 && (c0 & 0x08) == 0
            && (c0 & 0x10) == 0 && (c0 & 0x20) == 0),
        (c1 == 0) == ((c1 & 0x01) == 0 && (c1 & 0x02) == 0 && (c1 & 0x04) == 0 && (c1 & 0x08) == 0
            && (c1 & 0x10) == 0 && (c1 & 0x20) == 0),
        (c2 == 0) == ((c2 & 0x01) == 0 && (c2 & 0x02) == 0 && (c2 & 0x04) == 0 && (c2 & 0x08) == 0
            && (c2 & 0x10) == 0 && (c2 & 0x20) == 0),
{
}

} // verus!

verus! {

/// The sign and coordinate index of a plane's test.
fn plane_to_clip_params(plane: u8) -> (r: (i64, usize))
    requires
        valid_plane(plane),
    ensures
        r.0 == plane_sign(plane),
        r.1 == plane_index(plane),
        r.1 < 3,
{
    if plane == CLIP_NEG_X {
        (-1, 0)
    } else if plane == CLIP_POS_X {
        (1, 0)
    } else if plane == CLIP_NEG_Y {
        (-1, 1)
    } else if plane == CLIP_POS_Y {
        (1, 1)
    } else if plane == CLIP_NEG_Z {
        (-1, 2)
    } else {
        (1, 2)
    }
}

/// Clip a polygon against one plane, appending the surviving vertices and
/// edge intersections to `dst` in walk order.
#[verifier::rlimit(100)]
fn clip_against_plane(src: &Vec<ClipVertex>, plane: u8, dst: &mut Vec<ClipVertex>)
    requires
        valid_plane(plane),
        forall|i: int| 0 <= i < src@.len() ==> (#[trigger] src@[i]).wf(),
        old(dst)@.len() == 0,
    ensures
        final(dst)@ == clip_plane_spec(src@, plane),
        forall|i: int| 0 <= i < final(dst)@.len() ==> (#[trigger] final(dst)@[i]).wf(),
{
    let (sign, index) = plane_to_clip_params(plane);
    let n = src.len();
    let mut i: usize = 0;
    while i < n
        invariant
            valid_plane(plane),
            sign == plane_sign(plane),
            index == plane_index(plane),
            index < 3,
            n == src@.len(),
            i <= n,
            forall|k: int| 0 <= k < src@.len() ==> (#[trigger] src@[k]).wf(),
            dst@ == clip_plane_upto(src@, plane, i as int),
            forall|k: int| 0 <= k < dst@.len() ==> (#[trigger] dst@[k]).wf(),
        decreases n - i,
    {
        let v0 = if i == 0 {
            src[n - 1]
        } else {
            src[i - 1]
        };
        let v1 = src[i];
        let ghost dst_before = dst@;
        let d0 = v0.pos[3] - sign * v0.pos[index];
        let d1 = v1.pos[3] - sign * v1.pos[index];
        proof {
            assert(d0 == margin(v0, plane));
            assert(d1 == margin(v1, plane));
        }
        if d0 > 0 {
            dst.push(v0);
        }
        let denom = d0 - d1;
        if ((d0 > 0 && d1 <= 0) || (d0 <= 0 && d1 > 0)) && (denom > DENOM_EPSILON || denom
            < -DENOM_EPSILON) {
            let (num, den) = if denom >= 0 {
                (d0, denom)
            } else {
                (-d0, -denom)
            };
            let v = ClipVertex {
                pos: [
                    interp_component(v0.pos[0], v1.pos[0], num, den),
                    interp_component(v0.pos[1], v1.pos[1], num, den),
                    interp_component(v0.pos[2], v1.pos[2], num, den),
                    interp_component(v0.pos[3], v1.pos[3], num, den),
                ],
                r_s: interp_component(v0.r_s, v1.r_s, num, den),
                g_t: interp_component(v0.g_t, v1.g_t, num, den),
                b: interp_component(v0.b, v1.b, num, den),
            };
            proof {
                assert(v.pos =~= intersect_spec(v0, v1, plane).pos);
                assert(v == intersect_spec(v0, v1, plane));
            }
            dst.push(v);
        }
        proof {
            assert(dst@ =~= dst_before + clip_edge_spec(v0, v1, plane));
            assert(clip_plane_upto(src@, plane, i + 1) == clip_plane_upto(src@, plane, i as int)
                + clip_edge_spec(v0, v1, plane));
            assert(dst@ =~= clip_plane_upto(src@, plane, i + 1));
        }
        i += 1;
    }
}

/// Clip one triangle against the whole frustum, returning the surviving
/// triangles of the fan over the clipped polygon.
pub fn clip(vertices: [ClipVertex; 3]) -> (r: Vec<[ClipVertex; 3]>)
    requires
        forall|i: int| 0 <= i < 3 ==> (#[trigger] vertices[i]).wf(),
    ensures
        r@ == clip_spec(vertices),
        forall|i: int, j: int| 0 <= i < r@.len() && 0 <= j < 3 ==> (#[trigger] r@[i][j]).wf(),
{
    let c0 = vertices[0].classify();
    let c1 = vertices[1].classify();
    let c2 = vertices[2].classify();
    proof {
        lemma_outcode(vertices[0 as int]);
        lemma_outcode(vertices[1 as int]);
        lemma_outcode(vertices[2 as int]);
        lemma_code_combinations(c0, c1, c2);
    }
    if (c0 & c1 & c2) != 0 {
        proof {
            assert(culled_spec(vertices));
        }
        let r: Vec<[ClipVertex; 3]> = Vec::new();
        proof {
            assert(r@ =~= clip_spec(vertices));
        }
        return r;
    }
    proof {
        assert(!culled_spec(vertices));
    }
    if (c0 | c1 | c2) == 0 && vertices[0].pos[3] > 0 && vertices[1].pos[3] > 0 && vertices[2].pos[3]
        > 0 {
        proof {
            assert(pass_spec(vertices));
        }
        let mut r: Vec<[ClipVertex; 3]> = Vec::new();
        r.push(vertices);
        proof {
            assert(r@ =~= clip_spec(vertices));
        }
        return r;
    }
    proof {
        assert(!pass_spec(vertices));
    }

    let mut a: Vec<ClipVertex> = Vec::new();
    a.push(vertices[0]);
    a.push(vertices[1]);
    a.push(vertices[2]);
    proof {
        assert(a@ =~= seq![vertices[0 as int], vertices[1 as int], vertices[2 as int]]);
    }
    let mut b: Vec<ClipVertex> = Vec::new();
    clip_against_plane(&a, CLIP_NEG_X, &mut b);
    a.clear();
    clip_against_plane(&b, CLIP_POS_X, &mut a);
    b.clear();
    clip_against_plane(&a, CLIP_NEG_Y, &mut b);
    a.clear();
    clip_against_plane(&b, CLIP_POS_Y, &mut a);
    b.clear();
    clip_against_plane(&a, CLIP_NEG_Z, &mut b);
    a.clear();
    clip_against_plane(&b, CLIP_POS_Z, &mut a);
    proof {
        assert(a@ == polygon_spec(vertices));
    }

    let mut out: Vec<[ClipVertex; 3]> = Vec::new();
    let n = a.len();
    if n >= 3 {
        let v_first = a[0];
        let mut k: usize = 1;
        while k + 1 < n
            invariant
                n == a@.len(),
                3 <= n,
                1 <= k <= n - 1,
                v_first == a@[0],
                out@.len() == k - 1,
                forall|j: int| 0 <= j < out@.len() ==> out@[j] == [a@[0], a@[j + 1], a@[j + 2]],
                forall|i: int| 0 <= i < a@.len() ==> (#[trigger] a@[i]).wf(),
            decreases n - k,
        {
            let t: [ClipVertex; 3] = [v_first, a[k], a[k + 1]];
            out.push(t);
            k += 1;
        }
    }
    proof {
        assert(out@ =~= fan_spec(a@));
        assert(out@ =~= clip_spec(vertices));
    }
    out
}

/// Law: a triangle whose vertices all lie inside the frustum — every
/// coordinate within `[-w, w]` with `w` positive — is returned by the
/// clipper exactly as it came, as its own single fan triangle.
pub proof fn lemma_clip_inside_unchanged(tri: [ClipVertex; 3])
    requires
        forall|i: int| 0 <= i < 3 ==> {
            let v = #[trigger] tri[i];
            &&& v.pos[3] > 0
            &&& -v.pos[3] <= v.pos[0] <= v.pos[3]
            &&& -v.pos[3] <= v.pos[1] <= v.pos[3]
            &&& -v.pos[3] <= v.pos[2] <= v.pos[3]
        },
    ensures
        clip_spec(tri) == seq![tri],
{
    lemma_vertex_inside(tri[0 as int]);
    lemma_vertex_inside(tri[1 as int]);
    lemma_vertex_inside(tri[2 as int]);
    assert(pass_spec(tri));
    assert(!culled_spec(tri));
}

/// A vertex with every coordinate within `[-w, w]` lies beyond no plane.
proof fn lemma_vertex_inside(v: ClipVertex)
    requires
        -v.pos[3] <= v.pos[0] <= v.pos[3],
        -v.pos[3] <= v.pos[1] <= v.pos[3],
        -v.pos[3] <= v.pos[2] <= v.pos[3],
    ensures
        fully_inside(v),
{
    assert(!v.outside(CLIP_NEG_X));
    assert(!v.outside(CLIP_POS_X));
    assert(!v.outside(CLIP_NEG_Y));
    assert(!v.outside(CLIP_POS_Y));
    assert(!v.outside(CLIP_NEG_Z));
    assert(!v.outside(CLIP_POS_Z));
}

/// Law: a triangle whose three vertices all lie beyond one single frustum
/// plane is clipped to nothing.
pub proof fn lemma_clip_outside_plane(tri: [ClipVertex; 3], plane: u8)
    requires
        valid_plane(plane),
        all_outside(tri, plane),
    ensures
        clip_spec(tri) == Seq::<[ClipVertex; 3]>::empty(),
{
    assert(culled_spec(tri));
}

} // verus!

verus! {

/// Law: the fully degenerate triangle whose vertices all sit at the
/// homogeneous origin `(0, 0, 0, 0)` is clipped to nothing: it passes the
/// outcode tests (no coordinate is strictly beyond a plane) but has no
/// positive `w`, and the plane walk emits neither vertices (no positive
/// margin) nor intersections (no edge straddles a plane).
pub proof fn lemma_clip_degenerate_origin(tri: [ClipVertex; 3])
    requires
        forall|i: int| 0 <= i < 3 ==> {
            let v = #[trigger] tri[i];
            v.pos[0] == 0 && v.pos[1] == 0 && v.pos[2] == 0 && v.pos[3] == 0
        },
    ensures
        clip_spec(tri) == Seq::<[ClipVertex; 3]>::empty(),
{
    lemma_vertex_inside(tri[0 as int]);
    lemma_vertex_inside(tri[1 as int]);
    lemma_vertex_inside(tri[2 as int]);
    assert(!culled_spec(tri));
    assert(!pass_spec(tri));
    let p0 = seq![tri[0 as int], tri[1 as int], tri[2 as int]];
    assert forall|plane: u8| #![trigger clip_plane_spec(p0, plane)] valid_plane(plane)
        implies clip_plane_spec(p0, plane) =~= Seq::<ClipVertex>::empty() by {
        assert(margin(p0[0], plane) == 0);
        assert(margin(p0[1], plane) == 0);
        assert(margin(p0[2], plane) == 0);
        assert(clip_edge_spec(p0.last(), p0[0], plane) =~= Seq::<ClipVertex>::empty());
        assert(clip_edge_spec(p0[0], p0[1], plane) =~= Seq::<ClipVertex>::empty());
        assert(clip_edge_spec(p0[1], p0[2], plane) =~= Seq::<ClipVertex>::empty());
        assert(clip_plane_upto(p0, plane, 0) =~= Seq::<ClipVertex>::empty());
        assert(clip_plane_upto(p0, plane, 1) =~= Seq::<ClipVertex>::empty());
        assert(clip_plane_upto(p0, plane, 2) =~= Seq::<ClipVertex>::empty());
        assert(clip_plane_upto(p0, plane, 3) =~= Seq::<ClipVertex>::empty());
    }
    let empty = Seq::<ClipVertex>::empty();
    let p1 = clip_plane_spec(p0, CLIP_NEG_X);
    assert(p1 =~= empty);
    let p2 = clip_plane_spec(p1, CLIP_POS_X);
    assert(clip_plane_upto(p1, CLIP_POS_X, 0) =~= empty);
    assert(p2 =~= empty);
    let p3 = clip_plane_spec(p2, CLIP_NEG_Y);
    assert(clip_plane_upto(p2, CLIP_NEG_Y, 0) =~= empty);
    assert(p3 =~= empty);
    let p4 = clip_plane_spec(p3, CLIP_POS_Y);
    assert(clip_plane_upto(p3, CLIP_POS_Y, 0) =~= empty);
    assert(p4 =~= empty);
    let p5 = clip_plane_spec(p4, CLIP_NEG_Z);
    assert(clip_plane_upto(p4, CLIP_NEG_Z, 0) =~= empty);
    assert(p5 =~= empty);
    let p6 = clip_plane_spec(p5, CLIP_POS_Z);
    assert(clip_plane_upto(p5, CLIP_POS_Z, 0) =~= empty);
    assert(p6 =~= empty);
    assert(polygon_spec(tri) =~= empty);
    assert(fan_spec(polygon_spec(tri)) =~= Seq::<[ClipVertex; 3]>::empty());
}

} // verus!
