//! Face-culling policy.
//!
//! The geometry pipeline hands the hardware triangles in clockwise screen
//! winding; the rasterizer's own back-face cull discards what arrives
//! counter-clockwise, that is with positive signed twice-area in NDC.  The
//! software cull stage therefore works by winding: if the caller declared
//! counter-clockwise front faces, vertices 1 and 2 are exchanged up front,
//! and the cull mode then decides, from the sign of the signed area of that
//! pre-swapped triangle, whether to drop the triangle, emit it as it stands,
//! or emit it with the winding reversed so the hardware keeps (or drops) it.

use vstd::prelude::*;

verus! {

/// Which faces are discarded.
#[derive(Copy, Clone, PartialEq, Eq, Structural, Debug)]
pub enum CullMode {
    /// Drop back faces; the hardware's own cull does this.
    BackFace,
    /// Drop front faces, in software.
    FrontFace,
    /// Keep every face.
    Disabled,
}

/// Which winding the caller treats as front-facing.
#[derive(Copy, Clone, PartialEq, Eq, Structural, Debug)]
pub enum FrontFace {
    Clockwise,
    CounterClockwise,
}

/// What the cull stage does with one triangle, relative to the pre-swapped
/// winding.
#[derive(Copy, Clone, PartialEq, Eq, Structural, Debug)]
pub enum CullAction {
    /// Drop the triangle in software.
    Skip,
    /// Emit with the winding as it stands.
    Emit,
    /// Emit with vertices 1 and 2 exchanged.
    EmitSwapped,
}

/// The cull decision, given the cull mode and the sign of the signed
/// twice-area (in NDC) of the pre-swapped triangle.
pub open spec fn cull_action_spec(
    mode: CullMode,
    orient_positive: bool,
    orient_negative: bool,
) -> CullAction {
    match mode {
        CullMode::BackFace => CullAction::Emit,
        CullMode::Disabled => if orient_positive {
            CullAction::EmitSwapped
        } else {
            CullAction::Emit
        },
        CullMode::FrontFace => if orient_negative {
            CullAction::Skip
        } else {
            CullAction::EmitSwapped
        },
    }
}

/// The cull decision for one triangle.  `orient_positive` and
/// `orient_negative` report the sign of the signed twice-area of the
/// pre-swapped triangle in NDC.
pub fn cull_action(mode: CullMode, orient_positive: bool, orient_negative: bool) -> (r: CullAction)
    requires
        !(orient_positive && orient_negative),
    ensures
        r == cull_action_spec(mode, orient_positive, orient_negative),
{
    match mode {
        CullMode::BackFace => CullAction::Emit,
        CullMode::Disabled => {
            if orient_positive {
                CullAction::EmitSwapped
            } else {
                CullAction::Emit
            }
        },
        CullMode::FrontFace => {
            if orient_negative {
                CullAction::Skip
            } else {
                CullAction::EmitSwapped
            }
        },
    }
}

/// The hardware back-face cull discards a triangle emitted with positive
/// signed twice-area in NDC.
pub open spec fn hardware_drops(orient: int) -> bool {
    orient > 0
}

/// The signed twice-area the cull stage sees: the pre-swap for a
/// counter-clockwise front face exchanges two vertices, which negates it.
pub open spec fn preswapped_orient(face: FrontFace, orient: int) -> int {
    if face == FrontFace::CounterClockwise {
        -orient
    } else {
        orient
    }
}

/// Whether a triangle of signed NDC twice-area `orient` ends up dropped —
/// in software by the cull stage, or by the hardware's own back-face cull
/// after emission.
pub open spec fn dropped(mode: CullMode, face: FrontFace, orient: int) -> bool {
    let o2 = preswapped_orient(face, orient);
    match cull_action_spec(mode, o2 > 0, o2 < 0) {
        CullAction::Skip => true,
        CullAction::Emit => hardware_drops(o2),
        CullAction::EmitSwapped => hardware_drops(-o2),
    }
}

/// For a non-degenerate triangle, toggling the front face inverts whether
/// the triangle is dropped, under back-face as well as front-face culling;
/// with culling disabled no triangle is ever dropped.
pub proof fn lemma_front_face_toggle_inverts(mode: CullMode, orient: int)
    requires
        orient != 0,
    ensures
        mode != CullMode::Disabled ==> dropped(mode, FrontFace::Clockwise, orient) == !dropped(
            mode,
            FrontFace::CounterClockwise,
            orient,
        ),
        !dropped(CullMode::Disabled, FrontFace::Clockwise, orient),
        !dropped(CullMode::Disabled, FrontFace::CounterClockwise, orient),
{
}

} // verus!
