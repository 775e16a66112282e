use vstd::prelude::*;

use crate::image::{pixel_index, Image, RenderTarget};
use crate::math::Color;
use crate::raster::{depth_passes, passed_depth_test, CullMode, DepthOrder, DepthTest};
use crate::viewport::Viewport;

verus! {

/// Whether surviving fragments store their depth, and the test they must pass.
#[derive(Clone, Copy, Debug, PartialEq, Eq, Structural)]
pub struct DepthState {
    pub write: bool,
    pub test: DepthTest,
}

/// The pipeline state that draws run under.
pub struct Command {
    cull_mode: CullMode,
    viewport: Viewport,
    depth_state: DepthState,
}

/// The colour pixels after a fragment of colour `c` reaches pixel `i`.
pub open spec fn colors_after_fragment(
    state: DepthState,
    order: DepthOrder,
    colors: Seq<Color>,
    i: int,
    c: Color,
) -> Seq<Color> {
    if depth_passes(state.test, order) {
        colors.update(i, c)
    } else {
        colors
    }
}

/// The depth pixels after a fragment of depth `z` reaches pixel `i`.
pub open spec fn depths_after_fragment<D>(
    state: DepthState,
    order: DepthOrder,
    depths: Seq<D>,
    i: int,
    z: D,
) -> Seq<D> {
    if depth_passes(state.test, order) && state.write {
        depths.update(i, z)
    } else {
        depths
    }
}

impl Command {
    pub closed spec fn spec_cull_mode(&self) -> CullMode {
        self.cull_mode
    }

    pub closed spec fn spec_viewport(&self) -> Viewport {
        self.viewport
    }

    pub closed spec fn spec_depth_state(&self) -> DepthState {
        self.depth_state
    }

    /// No culling, an empty viewport, and a depth test of `Less` that writes
    /// nothing.
    pub fn new() -> (c: Command)
        ensures
            c.spec_cull_mode() == CullMode::Off,
            c.spec_viewport() == (Viewport { x_min: 0, y_min: 0, x_max: 0, y_max: 0 }),
            c.spec_depth_state() == (DepthState { write: false, test: DepthTest::Less }),
    {
        Command {
            cull_mode: CullMode::Off,
            viewport: Viewport { x_min: 0, y_min: 0, x_max: 0, y_max: 0 },
            depth_state: DepthState { write: false, test: DepthTest::Less },
        }
    }

    pub fn cull_mode(&self) -> (m: CullMode)
        ensures
            m == self.spec_cull_mode(),
    {
        self.cull_mode
    }

    pub fn viewport(&self) -> (v: Viewport)
        ensures
            v == self.spec_viewport(),
    {
        self.viewport
    }

    pub fn depth_state(&self) -> (d: DepthState)
        ensures
            d == self.spec_depth_state(),
    {
        self.depth_state
    }

    pub fn set_depth_test(&mut self, depth_test: DepthTest)
        ensures
            final(self).spec_depth_state() == (DepthState {
                test: depth_test,
                ..old(self).spec_depth_state()
            }),
            final(self).spec_cull_mode() == old(self).spec_cull_mode(),
            final(self).spec_viewport() == old(self).spec_viewport(),
    {
        self.depth_state.test = depth_test;
    }

    pub fn toggle_depth_write(&mut self, write: bool)
        ensures
            final(self).spec_depth_state() == (DepthState {
                write,
                ..old(self).spec_depth_state()
            }),
            final(self).spec_cull_mode() == old(self).spec_cull_mode(),
            final(self).spec_viewport() == old(self).spec_viewport(),
    {
        self.depth_state.write = write;
    }

    pub fn set_cull_mode(&mut self, cull_mode: CullMode)
        ensures
            final(self).spec_cull_mode() == cull_mode,
            final(self).spec_depth_state() == old(self).spec_depth_state(),
            final(self).spec_viewport() == old(self).spec_viewport(),
    {
        self.cull_mode = cull_mode;
    }

    pub fn set_viewport(&mut self, viewport: Viewport)
        ensures
            final(self).spec_viewport() == viewport,
            final(self).spec_cull_mode() == old(self).spec_cull_mode(),
            final(self).spec_depth_state() == old(self).spec_depth_state(),
    {
        self.viewport = viewport;
    }

    /// Fills the render target with `color`.
    pub fn clear_render_target(&self, image: &mut RenderTarget, color: Color)
        requires
            old(image).wf(),
        ensures
            final(image).wf(),
            final(image).width == old(image).width,
            final(image).height == old(image).height,
            forall|i: int|
                0 <= i < final(image).pixels@.len() ==> final(image).pixels@[i] == color,
    {
        image.clear_image(color);
    }

    /// Fills the depth buffer with `value` (by convention the far plane).
    pub fn clear_depth_buffer<D: Copy>(&self, image: &mut Image<D>, value: D)
        requires
            old(image).wf(),
        ensures
            final(image).wf(),
            final(image).width == old(image).width,
            final(image).height == old(image).height,
            forall|i: int|
                0 <= i < final(image).pixels@.len() ==> final(image).pixels@[i] == value,
    {
        image.clear_image(value);
    }

    /// Resolves a covered fragment at pixel `(x, y)` against a depth buffer:
    /// `order` is how its depth `z` compares with the stored depth. If the
    /// depth test passes, the pixel takes `color` and, if depth writes are on,
    /// the depth buffer takes `z`; otherwise nothing changes. Returns whether
    /// the test passed.
    pub fn resolve_fragment<D: Copy>(
        &self,
        target: &mut RenderTarget,
        depth: &mut Image<D>,
        x: u32,
        y: u32,
        z: D,
        order: DepthOrder,
        color: Color,
    ) -> (pass: bool)
        requires
            old(target).wf(),
            old(depth).wf(),
            old(target).in_bounds(x as int, y as int),
            old(depth).width == old(target).width,
            old(depth).height == old(target).height,
        ensures
            pass == depth_passes(self.spec_depth_state().test, order),
            final(target).wf(),
            final(depth).wf(),
            final(target).width == old(target).width,
            final(target).height == old(target).height,
            final(depth).width == old(depth).width,
            final(depth).height == old(depth).height,
            final(target).pixels@ == colors_after_fragment(
                self.spec_depth_state(),
                order,
                old(target).pixels@,
                pixel_index(old(target).width as int, x as int, y as int),
                color,
            ),
            final(depth).pixels@ == depths_after_fragment(
                self.spec_depth_state(),
                order,
                old(depth).pixels@,
                pixel_index(old(depth).width as int, x as int, y as int),
                z,
            ),
    {
        let pass = passed_depth_test(self.depth_state.test, order);
        if pass {
            if self.depth_state.write {
                depth.set_pixel(x, y, z);
            }
            target.set_pixel(x, y, color);
        }
        pass
    }
}

/// Two fragments reach the same pixel, the first one passing its test: the
/// pixel ends with the second colour if the second passes and with the first
/// otherwise; with depth writes off the depth buffer never changes.
pub proof fn lemma_depth_test_semantics<D>(
    state: DepthState,
    colors: Seq<Color>,
    depths: Seq<D>,
    i: int,
    first: Color,
    first_order: DepthOrder,
    first_z: D,
    second: Color,
    second_order: DepthOrder,
    second_z: D,
)
    requires
        0 <= i < colors.len(),
        0 <= i < depths.len(),
        depth_passes(state.test, first_order),
    ensures
        ({
            let after_first = colors_after_fragment(state, first_order, colors, i, first);
            let after_second = colors_after_fragment(state, second_order, after_first, i, second);
            after_second[i] == if depth_passes(state.test, second_order) {
                second
            } else {
                first
            }
        }),
        !state.write ==> depths_after_fragment(
            state,
            second_order,
            depths_after_fragment(state, first_order, depths, i, first_z),
            i,
            second_z,
        ) == depths,
{
}

} // verus!
