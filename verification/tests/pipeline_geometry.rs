use umd::clip::{ClipVertex, FP_ONE};
use umd::cull::{cull_action, CullAction, CullMode, FrontFace};
use umd::pipeline::{transform_gouraud, transform_texture, GeometryError};

fn cv(x: i64, y: i64, w: i64) -> ClipVertex {
    ClipVertex { pos: [x, y, 0, w], r_s: 0, g_t: 0, b: 0 }
}

#[test]
fn orthographic_unit_square_covers_the_viewport() {
    // corners of the square in clip space, w = 1 (orthographic)
    let vertices = [
        cv(-FP_ONE, -FP_ONE, FP_ONE),
        cv(FP_ONE, -FP_ONE, FP_ONE),
        cv(FP_ONE, FP_ONE, FP_ONE),
        cv(-FP_ONE, FP_ONE, FP_ONE),
    ];
    // two triangles, wound clockwise in NDC
    let indices: [u16; 6] = [0, 2, 1, 0, 3, 2];
    let out = transform_gouraud(
        &vertices,
        &indices,
        CullMode::BackFace,
        FrontFace::Clockwise,
        640,
        480,
    )
    .unwrap();
    assert_eq!(out.len(), 2);
    // screen corners: y and z are inverted by the viewport transform
    let corner = |i: usize| -> (u16, u16) {
        match i {
            0 => (0, 479),
            1 => (639, 479),
            2 => (639, 0),
            _ => (0, 0),
        }
    };
    for (t, idx) in out.iter().zip(indices.chunks(3)) {
        for (v, &i) in t.iter().zip(idx) {
            let (x, y) = corner(i as usize);
            assert_eq!((v.x, v.y), (x, y));
            assert_eq!(v.z, 32767);
        }
    }
}

#[test]
fn gouraud_attributes_scale_to_bytes() {
    let mut vertices = [cv(0, 0, FP_ONE), cv(FP_ONE / 2, 0, FP_ONE), cv(0, FP_ONE / 2, FP_ONE)];
    for v in vertices.iter_mut() {
        v.r_s = FP_ONE;
        v.g_t = FP_ONE / 2;
        v.b = 0;
    }
    let out = transform_gouraud(
        &vertices,
        &[0, 1, 2],
        CullMode::BackFace,
        FrontFace::Clockwise,
        640,
        480,
    )
    .unwrap();
    assert_eq!(out.len(), 1);
    assert_eq!(out[0][0].r_s, 255);
    assert_eq!(out[0][0].g_t, 127);
    assert_eq!(out[0][0].b, 0);
}

#[test]
fn texture_attributes_invert_s() {
    let mut vertices = [cv(0, 0, FP_ONE), cv(FP_ONE / 2, 0, FP_ONE), cv(0, FP_ONE / 2, FP_ONE)];
    for v in vertices.iter_mut() {
        v.r_s = 0;  // s = 0 maps to 255
        v.g_t = FP_ONE;  // t = 1 maps to 255
        v.b = 0;
    }
    let out = transform_texture(
        &vertices,
        &[0, 1, 2],
        CullMode::BackFace,
        FrontFace::Clockwise,
        640,
        480,
    )
    .unwrap();
    assert_eq!(out[0][0].r_s, 255);
    assert_eq!(out[0][0].g_t, 255);
    assert_eq!(out[0][0].b, 0);
}

#[test]
fn index_count_must_be_a_multiple_of_three() {
    let vertices = [cv(0, 0, FP_ONE)];
    let r = transform_gouraud(
        &vertices,
        &[0, 0],
        CullMode::BackFace,
        FrontFace::Clockwise,
        640,
        480,
    );
    assert_eq!(r, Err(GeometryError::IndexCount));
}

#[test]
fn out_of_range_index_is_rejected() {
    let vertices = [cv(0, 0, FP_ONE), cv(FP_ONE / 2, 0, FP_ONE), cv(0, FP_ONE / 2, FP_ONE)];
    let r = transform_gouraud(
        &vertices,
        &[0, 1, 7],
        CullMode::BackFace,
        FrontFace::Clockwise,
        640,
        480,
    );
    assert_eq!(r, Err(GeometryError::IndexRange));
}

#[test]
fn out_of_range_interpolant_is_rejected() {
    // an interpolant above 1.0 cannot be mapped to a byte attribute
    let mut vertices = [cv(0, 0, FP_ONE), cv(FP_ONE / 2, 0, FP_ONE), cv(0, FP_ONE / 2, FP_ONE)];
    vertices[0].r_s = 2 * FP_ONE;
    let r = transform_gouraud(
        &vertices,
        &[0, 1, 2],
        CullMode::BackFace,
        FrontFace::Clockwise,
        640,
        480,
    );
    assert_eq!(r, Err(GeometryError::OutOfView));
}

/// A clockwise triangle in NDC (negative signed area).
fn cw_triangle() -> [ClipVertex; 3] {
    [cv(0, 0, FP_ONE), cv(0, FP_ONE / 2, FP_ONE), cv(FP_ONE / 2, 0, FP_ONE)]
}

#[test]
fn front_face_cull_drops_iff_front_facing() {
    let vertices = cw_triangle();
    // clockwise front face: the triangle is front-facing and is dropped
    let dropped = transform_gouraud(
        &vertices,
        &[0, 1, 2],
        CullMode::FrontFace,
        FrontFace::Clockwise,
        640,
        480,
    )
    .unwrap();
    // orientation after no pre-swap is negative: front-facing, dropped
    assert_eq!(dropped.len(), 0);
    // toggling the front face keeps it
    let kept = transform_gouraud(
        &vertices,
        &[0, 1, 2],
        CullMode::FrontFace,
        FrontFace::CounterClockwise,
        640,
        480,
    )
    .unwrap();
    assert_eq!(kept.len(), 1);
}

#[test]
fn disabled_cull_reverses_winding_instead_of_dropping() {
    let vertices = cw_triangle();
    // counter-clockwise front face pre-swaps, making the orientation
    // positive, so the cull stage swaps the winding back for the hardware
    let out = transform_gouraud(
        &vertices,
        &[0, 1, 2],
        CullMode::Disabled,
        FrontFace::CounterClockwise,
        640,
        480,
    )
    .unwrap();
    assert_eq!(out.len(), 1);
    // pre-swap gives (v0, v2, v1); the corrective swap restores (v0, v1, v2)
    let sv = &out[0];
    assert_eq!((sv[0].x, sv[0].y), (319, 239));
    assert_eq!((sv[1].x, sv[1].y), (319, 119));
    assert_eq!((sv[2].x, sv[2].y), (479, 239));
}

#[test]
fn cull_action_policy_table() {
    // back-face culling is left to the hardware
    assert_eq!(cull_action(CullMode::BackFace, false, false), CullAction::Emit);
    assert_eq!(cull_action(CullMode::BackFace, true, false), CullAction::Emit);
    assert_eq!(cull_action(CullMode::BackFace, false, true), CullAction::Emit);
    // disabled culling reverses hardware-doomed windings
    assert_eq!(cull_action(CullMode::Disabled, true, false), CullAction::EmitSwapped);
    assert_eq!(cull_action(CullMode::Disabled, false, false), CullAction::Emit);
    assert_eq!(cull_action(CullMode::Disabled, false, true), CullAction::Emit);
    // front-face culling drops front faces, reverses the rest
    assert_eq!(cull_action(CullMode::FrontFace, false, true), CullAction::Skip);
    assert_eq!(cull_action(CullMode::FrontFace, true, false), CullAction::EmitSwapped);
    assert_eq!(cull_action(CullMode::FrontFace, false, false), CullAction::EmitSwapped);
}

#[test]
fn clipped_geometry_stays_inside_the_viewport() {
    // a huge triangle poking far out of the frustum on several sides
    let vertices = [
        cv(-10 * FP_ONE, -10 * FP_ONE, FP_ONE),
        cv(10 * FP_ONE, -2 * FP_ONE, FP_ONE),
        cv(0, 12 * FP_ONE, FP_ONE),
    ];
    let out = transform_gouraud(
        &vertices,
        &[0, 2, 1],
        CullMode::BackFace,
        FrontFace::Clockwise,
        640,
        480,
    )
    .unwrap();
    assert!(!out.is_empty());
    for t in out.iter() {
        for v in t.iter() {
            assert!(usize::from(v.x) < 640);
            assert!(usize::from(v.y) < 480);
        }
    }
}
