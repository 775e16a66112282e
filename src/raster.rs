use vstd::prelude::*;

verus! {

/// Which triangles a draw discards by winding. Front faces are the ones that
/// wind counter-clockwise in normalised device coordinates.
#[derive(Clone, Copy, Debug, PartialEq, Eq, Structural)]
pub enum CullMode {
    /// Keep every triangle.
    Off,
    /// Discard back faces: only counter-clockwise triangles are drawn.
    BackFace,
    /// Discard front faces: only clockwise triangles are drawn.
    FrontFace,
}

/// What the rasterizer does with a triangle after its winding is known.
#[derive(Clone, Copy, Debug, PartialEq, Eq, Structural)]
pub enum WindingAction {
    /// Rasterize it as it is.
    Keep,
    /// Exchange its second and third vertices (and their attributes), which
    /// flips the sign of its area, then rasterize it.
    Swap,
    /// Draw nothing of it.
    Discard,
}

/// The action for a triangle under `mode`. `ccw` says that its screen-space
/// signed area is negative, which after the y flip means that it winds
/// counter-clockwise in normalised device coordinates.
pub open spec fn spec_winding_action(mode: CullMode, ccw: bool) -> WindingAction {
    match mode {
        CullMode::Off => if ccw {
            WindingAction::Swap
        } else {
            WindingAction::Keep
        },
        CullMode::BackFace => if ccw {
            WindingAction::Swap
        } else {
            WindingAction::Discard
        },
        CullMode::FrontFace => if ccw {
            WindingAction::Discard
        } else {
            WindingAction::Keep
        },
    }
}

/// The signed area that the raster loop sees after `action` on a triangle of
/// signed area `area`.
pub open spec fn area_after(action: WindingAction, area: int) -> int {
    if action == WindingAction::Swap {
        -area
    } else {
        area
    }
}

/// Decides whether a triangle is culled, and whether its vertices are
/// reordered so that the raster loop always sees a non-negative area.
pub fn winding_action(mode: CullMode, ccw: bool) -> (action: WindingAction)
    ensures
        action == spec_winding_action(mode, ccw),
{
    match mode {
        CullMode::Off => if ccw {
            WindingAction::Swap
        } else {
            WindingAction::Keep
        },
        CullMode::BackFace => if ccw {
            WindingAction::Swap
        } else {
            WindingAction::Discard
        },
        CullMode::FrontFace => if ccw {
            WindingAction::Discard
        } else {
            WindingAction::Keep
        },
    }
}

/// Whatever the cull mode, a triangle that is drawn reaches the raster loop
/// with a non-negative signed area.
pub proof fn lemma_drawn_area_non_negative(mode: CullMode, area: int)
    requires
        spec_winding_action(mode, area < 0) != WindingAction::Discard,
    ensures
        area_after(spec_winding_action(mode, area < 0), area) >= 0,
{
}

/// Culling back faces and then front faces draws each triangle exactly once,
/// in the same orientation as a draw that culls nothing.
pub proof fn lemma_cull_modes_partition(ccw: bool)
    ensures
        (spec_winding_action(CullMode::BackFace, ccw) == WindingAction::Discard) != (
        spec_winding_action(CullMode::FrontFace, ccw) == WindingAction::Discard),
        spec_winding_action(CullMode::BackFace, ccw) != WindingAction::Discard
            ==> spec_winding_action(CullMode::BackFace, ccw) == spec_winding_action(
            CullMode::Off,
            ccw,
        ),
        spec_winding_action(CullMode::FrontFace, ccw) != WindingAction::Discard
            ==> spec_winding_action(CullMode::FrontFace, ccw) == spec_winding_action(
            CullMode::Off,
            ccw,
        ),
{
}

/// The comparison that decides whether a fragment survives.
#[derive(Clone, Copy, Debug, PartialEq, Eq, Structural)]
pub enum DepthTest {
    Never,
    Always,
    Less,
    LessOrEqual,
    Equal,
    GreaterOrEqual,
    Greater,
    NotEqual,
}

/// How a fragment's depth compares with the depth already stored.
/// `Unordered` is for depths that are not comparable (a NaN).
#[derive(Clone, Copy, Debug, PartialEq, Eq, Structural)]
pub enum DepthOrder {
    Less,
    Equal,
    Greater,
    Unordered,
}

/// Whether a fragment whose depth compares with the stored one as `order`
/// passes `test`.
pub open spec fn depth_passes(test: DepthTest, order: DepthOrder) -> bool {
    match test {
        DepthTest::Never => false,
        DepthTest::Always => true,
        DepthTest::Less => order == DepthOrder::Less,
        DepthTest::LessOrEqual => order == DepthOrder::Less || order == DepthOrder::Equal,
        DepthTest::Equal => order == DepthOrder::Equal,
        DepthTest::GreaterOrEqual => order == DepthOrder::Greater || order == DepthOrder::Equal,
        DepthTest::Greater => order == DepthOrder::Greater,
        DepthTest::NotEqual => order != DepthOrder::Equal,
    }
}

pub fn passed_depth_test(test: DepthTest, order: DepthOrder) -> (pass: bool)
    ensures
        pass == depth_passes(test, order),
{
    match test {
        DepthTest::Never => false,
        DepthTest::Always => true,
        DepthTest::Less => matches!(order, DepthOrder::Less),
        DepthTest::LessOrEqual => matches!(order, DepthOrder::Less | DepthOrder::Equal),
        DepthTest::Equal => matches!(order, DepthOrder::Equal),
        DepthTest::GreaterOrEqual => matches!(order, DepthOrder::Greater | DepthOrder::Equal),
        DepthTest::Greater => matches!(order, DepthOrder::Greater),
        DepthTest::NotEqual => !matches!(order, DepthOrder::Equal),
    }
}

/// The vertex indices of the triangles an index list describes: triangle `k`
/// uses entries `3k`, `3k + 1` and `3k + 2`; an incomplete last triple is
/// ignored.
pub fn triangle_indices(indices: &Vec<u32>) -> (tris: Vec<[u32; 3]>)
    ensures
        tris@.len() == indices@.len() / 3,
        forall|k: int|
            0 <= k < tris@.len() ==> (#[trigger] tris@[k])[0] == indices@[3 * k] && tris@[k][1]
                == indices@[3 * k + 1] && tris@[k][2] == indices@[3 * k + 2],
{
    let len = indices.len();
    let n = len / 3;
    let mut tris: Vec<[u32; 3]> = Vec::with_capacity(n);
    let mut k: usize = 0;
    while k < n
        invariant
            k <= n,
            len == indices@.len(),
            n == len / 3,
            tris@.len() == k,
            forall|j: int|
                0 <= j < k ==> (#[trigger] tris@[j])[0] == indices@[3 * j] && tris@[j][1]
                    == indices@[3 * j + 1] && tris@[j][2] == indices@[3 * j + 2],
        decreases n - k,
    {
        let base = 3 * k;
        tris.push([indices[base], indices[base + 1], indices[base + 2]]);
        k = k + 1;
    }
    tris
}

} // verus!
