use umd::clip::{clip, ClipVertex, FP_ONE};

fn cv(x: i64, y: i64, z: i64, w: i64) -> ClipVertex {
    ClipVertex { pos: [x, y, z, w], r_s: 0, g_t: 0, b: 0 }
}

fn same(a: &ClipVertex, b: &ClipVertex) -> bool {
    a.pos == b.pos && a.r_s == b.r_s && a.g_t == b.g_t && a.b == b.b
}

#[test]
fn fully_inside_triangle_passes_through_unchanged() {
    let tri = [
        cv(-FP_ONE / 2, -FP_ONE / 2, 0, FP_ONE),
        cv(FP_ONE / 2, -FP_ONE / 2, 0, FP_ONE),
        cv(0, FP_ONE / 2, FP_ONE / 4, FP_ONE),
    ];
    let out = clip(tri);
    assert_eq!(out.len(), 1);
    for i in 0..3 {
        assert!(same(&out[0][i], &tri[i]));
    }
}

#[test]
fn triangle_on_the_frustum_boundary_still_passes() {
    // |x| == w and |y| == w count as inside
    let tri = [
        cv(-FP_ONE, -FP_ONE, 0, FP_ONE),
        cv(FP_ONE, -FP_ONE, 0, FP_ONE),
        cv(FP_ONE, FP_ONE, 0, FP_ONE),
    ];
    let out = clip(tri);
    assert_eq!(out.len(), 1);
    for i in 0..3 {
        assert!(same(&out[0][i], &tri[i]));
    }
}

#[test]
fn triangle_beyond_one_plane_is_culled() {
    // every vertex has x > w: fully beyond the positive-x plane
    let tri = [
        cv(2 * FP_ONE, 0, 0, FP_ONE),
        cv(3 * FP_ONE, 0, 0, FP_ONE),
        cv(2 * FP_ONE, FP_ONE, 0, FP_ONE),
    ];
    assert_eq!(clip(tri).len(), 0);
    // and the same beyond the negative-z plane
    let tri = [
        cv(0, 0, -2 * FP_ONE, FP_ONE),
        cv(FP_ONE, 0, -3 * FP_ONE, FP_ONE),
        cv(0, FP_ONE, -2 * FP_ONE, FP_ONE),
    ];
    assert_eq!(clip(tri).len(), 0);
}

#[test]
fn all_zero_triangle_emits_nothing() {
    let z = cv(0, 0, 0, 0);
    assert_eq!(clip([z, z, z]).len(), 0);
}

#[test]
fn straddling_triangle_is_clipped_against_the_plane() {
    // one vertex beyond x == w, the other two inside
    let tri = [
        cv(0, 0, 0, FP_ONE),
        cv(2 * FP_ONE, 0, 0, FP_ONE),
        cv(0, FP_ONE / 2, 0, FP_ONE),
    ];
    let out = clip(tri);
    assert!(!out.is_empty());
    for t in out.iter() {
        for v in t.iter() {
            assert!(v.pos[0] <= v.pos[3] + 1, "vertex left the frustum in x");
            assert!(v.pos[3] == FP_ONE);
        }
    }
}

#[test]
fn degenerate_denominator_emits_no_intersection() {
    // the edge a -> b straddles x == w with margins 32 and -16: its
    // denominator 48 is under the threshold, so no intersection vertex is
    // created for it; b itself is outside and dropped
    let a = cv(FP_ONE - 32, 0, 0, FP_ONE);
    let b = cv(FP_ONE + 16, 0, 0, FP_ONE);
    let c = cv(0, 0, 0, FP_ONE);
    let out = clip([a, b, c]);
    assert_eq!(out.len(), 1);
    let expect_ix = cv(FP_ONE, 0, 0, FP_ONE);
    assert!(same(&out[0][0], &a));
    assert!(same(&out[0][1], &expect_ix));
    assert!(same(&out[0][2], &c));
}
