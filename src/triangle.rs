use vstd::prelude::*;

use crate::command::Command;
use crate::draw::{depth_drawn, drawn, pixel_at, resolved, Fragment};
use crate::image::{Image, RenderTarget};
use crate::math::{blend, lemma_blend_uniform, Color};
use crate::raster::{
    depth_passes, lemma_cull_modes_partition, spec_winding_action, winding_action, CullMode,
    DepthOrder, WindingAction,
};
use crate::viewport::{max3, min3, Viewport};

verus! {

/// `det2d(b - a, p - a)`: positive when `p` lies to the left of the edge
/// from `a` to `b` (with y up), zero on its line.
pub open spec fn edge(ax: int, ay: int, bx: int, by: int, px: int, py: int) -> int {
    (bx - ax) * (py - ay) - (by - ay) * (px - ax)
}

/// A triangle in screen space whose vertices lie on pixel corners: vertex
/// `i` is at `(xs[i], ys[i])` and has colour `colors[i]`. Every pixel it
/// covers takes depth `depth` and the vertex colours blended with the exact
/// barycentric weights of the pixel centre.
#[derive(Clone, Copy, Debug)]
pub struct ScreenTriangle {
    pub xs: [i32; 3],
    pub ys: [i32; 3],
    pub depth: i64,
    pub colors: [Color; 3],
}

impl ScreenTriangle {
    /// The edge function from vertex `i` to vertex `j` at the centre of
    /// pixel `(x, y)`, in half-pixel units so that it stays an integer.
    pub open spec fn edge_at(self, i: int, j: int, x: int, y: int) -> int {
        edge(
            2 * self.xs[i],
            2 * self.ys[i],
            2 * self.xs[j],
            2 * self.ys[j],
            2 * x + 1,
            2 * y + 1,
        )
    }

    /// Twice the signed area, `det2d(v1 - v0, v2 - v0)`.
    pub open spec fn area2(self) -> int {
        edge(
            self.xs[0] as int,
            self.ys[0] as int,
            self.xs[1] as int,
            self.ys[1] as int,
            self.xs[2] as int,
            self.ys[2] as int,
        )
    }

    /// The centre of pixel `(x, y)` lies on the non-negative side of all
    /// three edges, edges included.
    pub open spec fn covers(self, x: int, y: int) -> bool {
        &&& self.edge_at(0, 1, x, y) >= 0
        &&& self.edge_at(1, 2, x, y) >= 0
        &&& self.edge_at(2, 0, x, y) >= 0
    }

    /// The centre of pixel `(x, y)` lies inside the triangle or on its
    /// boundary, whichever way it winds.
    pub open spec fn contains_centre(self, x: int, y: int) -> bool {
        ||| (self.edge_at(0, 1, x, y) >= 0 && self.edge_at(1, 2, x, y) >= 0 && self.edge_at(2, 0, x, y) >= 0)
        ||| (self.edge_at(0, 1, x, y) <= 0 && self.edge_at(1, 2, x, y) <= 0 && self.edge_at(2, 0, x, y) <= 0)
    }

    /// The same triangle with its second and third vertices exchanged.
    pub open spec fn spec_swapped(self) -> ScreenTriangle {
        ScreenTriangle {
            xs: [self.xs[0], self.xs[2], self.xs[1]],
            ys: [self.ys[0], self.ys[2], self.ys[1]],
            colors: [self.colors[0], self.colors[2], self.colors[1]],
            ..self
        }
    }

    /// The triangle as the raster loop sees it after `action`.
    pub open spec fn oriented(self, action: WindingAction) -> ScreenTriangle {
        if action == WindingAction::Swap {
            self.spec_swapped()
        } else {
            self
        }
    }

    /// The vertex columns, widened for `Viewport::pixel_bounds`.
    pub open spec fn wide_xs(self) -> [i64; 3] {
        [self.xs[0] as i64, self.xs[1] as i64, self.xs[2] as i64]
    }

    /// The vertex rows, widened.
    pub open spec fn wide_ys(self) -> [i64; 3] {
        [self.ys[0] as i64, self.ys[1] as i64, self.ys[2] as i64]
    }

    pub fn swapped(&self) -> (t: ScreenTriangle)
        ensures
            t == self.spec_swapped(),
    {
        ScreenTriangle {
            xs: [self.xs[0], self.xs[2], self.xs[1]],
            ys: [self.ys[0], self.ys[2], self.ys[1]],
            depth: self.depth,
            colors: [self.colors[0], self.colors[2], self.colors[1]],
        }
    }

    fn edge_value(ax: i32, ay: i32, bx: i32, by: i32, x: u32, y: u32) -> (e: i128)
        ensures
            e == edge(
                2 * ax,
                2 * ay,
                2 * bx,
                2 * by,
                2 * x + 1,
                2 * y + 1,
            ),
            -0x400_0000_0000_0000_0000 <= e <= 0x400_0000_0000_0000_0000,
    {
        let dx = 2 * (bx as i128) - 2 * (ax as i128);
        let dy = 2 * (by as i128) - 2 * (ay as i128);
        let px = 2 * (x as i128) + 1 - 2 * (ax as i128);
        let py = 2 * (y as i128) + 1 - 2 * (ay as i128);
        proof {
            lemma_small_product(dx as int, py as int);
            lemma_small_product(dy as int, px as int);
        }
        proof {
            assert(-0x400_0000_0000_0000_0000 <= dx * py - dy * px <= 0x400_0000_0000_0000_0000);
        }
        dx * py - dy * px
    }

    /// Twice the signed area.
    pub fn signed_area(&self) -> (a: i128)
        ensures
            a == self.area2(),
    {
        let dx1 = (self.xs[1] as i128) - (self.xs[0] as i128);
        let dy1 = (self.ys[1] as i128) - (self.ys[0] as i128);
        let dx2 = (self.xs[2] as i128) - (self.xs[0] as i128);
        let dy2 = (self.ys[2] as i128) - (self.ys[0] as i128);
        proof {
            lemma_small_product(dx1 as int, dy2 as int);
            lemma_small_product(dy1 as int, dx2 as int);
        }
        dx1 * dy2 - dy1 * dx2
    }

    /// Whether the centre of pixel `(x, y)` is covered.
    pub fn covers_pixel(&self, x: u32, y: u32) -> (c: bool)
        ensures
            c == self.covers(x as int, y as int),
    {
        let e01 = Self::edge_value(self.xs[0], self.ys[0], self.xs[1], self.ys[1], x, y);
        let e12 = Self::edge_value(self.xs[1], self.ys[1], self.xs[2], self.ys[2], x, y);
        let e20 = Self::edge_value(self.xs[2], self.ys[2], self.xs[0], self.ys[0], x, y);
        e01 >= 0 && e12 >= 0 && e20 >= 0
    }
}

proof fn lemma_small_product(a: int, b: int)
    requires
        -0x10_0000_0000 <= a <= 0x10_0000_0000,
        -0x10_0000_0000 <= b <= 0x10_0000_0000,
    ensures
        -0x100_0000_0000_0000_0000 <= a * b <= 0x100_0000_0000_0000_0000,
{
    assert(-0x100_0000_0000_0000_0000 <= a * b <= 0x100_0000_0000_0000_0000) by (nonlinear_arith)
        requires
            -0x10_0000_0000 <= a <= 0x10_0000_0000,
            -0x10_0000_0000 <= b <= 0x10_0000_0000,
    ;
}

/// How integer depth `z` compares with `stored`.
pub open spec fn int_depth_order(z: i64, stored: i64) -> DepthOrder {
    if z < stored {
        DepthOrder::Less
    } else if z == stored {
        DepthOrder::Equal
    } else {
        DepthOrder::Greater
    }
}

/// Whether pixel `(x, y)` lies both in a `width` by `height` target and in
/// the viewport.
pub open spec fn in_view(vp: Viewport, width: u32, height: u32, x: int, y: int) -> bool {
    &&& 0 <= x < width
    &&& 0 <= y < height
    &&& vp.x_min <= x < vp.x_max
    &&& vp.y_min <= y < vp.y_max
}

/// Whether pixel `(x, y)` lies in the rectangle that the raster loop visits
/// for `t`.
pub open spec fn in_visited_box(vp: Viewport, width: u32, height: u32, t: ScreenTriangle, x: int, y: int) -> bool {
    &&& vp.first_column(t.wide_xs()) <= x <= vp.last_column(width, t.wide_xs())
    &&& vp.first_row(t.wide_ys()) <= y <= vp.last_row(height, t.wide_ys())
}

/// `t` as the raster loop sees it under cull mode `mode`: reordered when
/// its winding calls for it.
pub open spec fn drawn_as(mode: CullMode, t: ScreenTriangle) -> ScreenTriangle {
    t.oriented(spec_winding_action(mode, t.area2() < 0))
}

/// Whether drawing `t` under cull mode `mode` and viewport `vp` on a `width`
/// by `height` target writes pixel `(x, y)`.
pub open spec fn triangle_writes(
    mode: CullMode,
    vp: Viewport,
    width: u32,
    height: u32,
    t: ScreenTriangle,
    x: int,
    y: int,
) -> bool {
    let action = spec_winding_action(mode, t.area2() < 0);
    &&& action != WindingAction::Discard
    &&& t.area2() != 0
    &&& in_visited_box(vp, width, height, t, x, y)
    &&& t.oriented(action).covers(x, y)
}

impl ScreenTriangle {
    /// The vertex colours blended at the centre of pixel `(x, y)`: each
    /// vertex weighs as the edge function of the edge opposite it.
    pub open spec fn shade(self, x: int, y: int) -> Color {
        blend(
            self.edge_at(1, 2, x, y),
            self.edge_at(2, 0, x, y),
            self.edge_at(0, 1, x, y),
            self.colors[0],
            self.colors[1],
            self.colors[2],
        )
    }

    /// The fragment at pixel `(x, y)`: the triangle's depth and shaded colour
    /// where it covers the pixel centre.
    pub open spec fn spec_fragment(self, x: int, y: int) -> Option<Fragment<i64>> {
        if self.covers(x, y) {
            Some(Fragment { depth: self.depth, color: self.shade(x, y) })
        } else {
            None
        }
    }

    pub fn fragment(&self, x: u32, y: u32) -> (f: Option<Fragment<i64>>)
        ensures
            f == self.spec_fragment(x as int, y as int),
    {
        let e01 = Self::edge_value(self.xs[0], self.ys[0], self.xs[1], self.ys[1], x, y);
        let e12 = Self::edge_value(self.xs[1], self.ys[1], self.xs[2], self.ys[2], x, y);
        let e20 = Self::edge_value(self.xs[2], self.ys[2], self.xs[0], self.ys[0], x, y);
        if e01 >= 0 && e12 >= 0 && e20 >= 0 {
            let color = Color::blend(e12, e20, e01, self.colors[0], self.colors[1], self.colors[2]);
            Some(Fragment { depth: self.depth, color })
        } else {
            None
        }
    }
}

/// How integer depth `z` compares with `stored`.
pub fn compare_depth(z: i64, stored: i64) -> (o: DepthOrder)
    ensures
        o == int_depth_order(z, stored),
{
    if z < stored {
        DepthOrder::Less
    } else if z == stored {
        DepthOrder::Equal
    } else {
        DepthOrder::Greater
    }
}

proof fn lemma_expand(a: int, b: int, c: int, d: int)
    ensures
        (a - b) * (c - d) == a * c - a * d - b * c + b * d,
{
    assert((a - b) * (c - d) == a * c - a * d - b * c + b * d) by (nonlinear_arith);
}

proof fn lemma_edge_expanded(ax: int, ay: int, bx: int, by: int, px: int, py: int)
    ensures
        edge(ax, ay, bx, by, px, py) == bx * py - bx * ay - ax * py + ax * ay - (by * px - by * ax
            - ay * px + ay * ax),
{
    lemma_expand(bx, ax, py, ay);
    lemma_expand(by, ay, px, ax);
}

proof fn lemma_edge_sum(ax: int, ay: int, bx: int, by: int, cx: int, cy: int, px: int, py: int)
    ensures
        edge(ax, ay, bx, by, px, py) + edge(bx, by, cx, cy, px, py) + edge(cx, cy, ax, ay, px, py)
            == edge(ax, ay, bx, by, cx, cy),
{
    lemma_edge_expanded(ax, ay, bx, by, px, py);
    lemma_edge_expanded(bx, by, cx, cy, px, py);
    lemma_edge_expanded(cx, cy, ax, ay, px, py);
    lemma_edge_expanded(ax, ay, bx, by, cx, cy);
    assert(bx * ay == ay * bx && ax * by == by * ax && cx * by == by * cx && ax * cy == cy * ax
        && bx * cy == cy * bx && cx * ay == ay * cx) by (nonlinear_arith);
}

proof fn lemma_edge_reversed(ax: int, ay: int, bx: int, by: int, px: int, py: int)
    ensures
        edge(bx, by, ax, ay, px, py) == -edge(ax, ay, bx, by, px, py),
{
    assert(edge(bx, by, ax, ay, px, py) == -edge(ax, ay, bx, by, px, py)) by (nonlinear_arith);
}

proof fn lemma_edge_scaled(ax: int, ay: int, bx: int, by: int, cx: int, cy: int)
    ensures
        edge(2 * ax, 2 * ay, 2 * bx, 2 * by, 2 * cx, 2 * cy) == 4 * edge(ax, ay, bx, by, cx, cy),
{
    assert(edge(2 * ax, 2 * ay, 2 * bx, 2 * by, 2 * cx, 2 * cy) == 4 * edge(ax, ay, bx, by, cx, cy))
        by (nonlinear_arith);
}

proof fn lemma_edge_translated(ax: int, ay: int, bx: int, by: int, px: int, py: int)
    ensures
        edge(ax, ay, bx, by, px, py) == (ax - px) * (by - py) - (ay - py) * (bx - px),
{
    assert(edge(ax, ay, bx, by, px, py) == (ax - px) * (by - py) - (ay - py) * (bx - px))
        by (nonlinear_arith);
}

proof fn lemma_cross_weights(ax: int, ay: int, bx: int, by: int, cx: int, cy: int)
    ensures
        (bx * cy - by * cx) * ax + (cx * ay - cy * ax) * bx + (ax * by - ay * bx) * cx == 0,
        (bx * cy - by * cx) * ay + (cx * ay - cy * ax) * by + (ax * by - ay * bx) * cy == 0,
{
    assert((bx * cy - by * cx) * ay == bx * cy * ay - by * cx * ay) by (nonlinear_arith);
    assert((cx * ay - cy * ax) * by == cx * ay * by - cy * ax * by) by (nonlinear_arith);
    assert((ax * by - ay * bx) * cy == ax * by * cy - ay * bx * cy) by (nonlinear_arith);
    assert(bx * cy * ay == ay * bx * cy) by (nonlinear_arith);
    assert(by * cx * ay == cx * ay * by) by (nonlinear_arith);
    assert(cy * ax * by == ax * by * cy) by (nonlinear_arith);
    assert((bx * cy - by * cx) * ax == bx * cy * ax - by * cx * ax) by (nonlinear_arith);
    assert((cx * ay - cy * ax) * bx == cx * ay * bx - cy * ax * bx) by (nonlinear_arith);
    assert((ax * by - ay * bx) * cx == ax * by * cx - ay * bx * cx) by (nonlinear_arith);
    assert(bx * cy * ax == cy * ax * bx) by (nonlinear_arith);
    assert(by * cx * ax == ax * by * cx) by (nonlinear_arith);
    assert(cx * ay * bx == ay * bx * cx) by (nonlinear_arith);
}

/// The point is the combination of the vertices weighted by the opposite
/// edge functions (its unnormalised barycentric coordinates), along x.
proof fn lemma_edge_weights_x(ax: int, ay: int, bx: int, by: int, cx: int, cy: int, px: int, py: int)
    ensures
        edge(bx, by, cx, cy, px, py) * ax + edge(cx, cy, ax, ay, px, py) * bx + edge(
            ax,
            ay,
            bx,
            by,
            px,
            py,
        ) * cx == edge(ax, ay, bx, by, cx, cy) * px,
{
    let e0 = edge(bx, by, cx, cy, px, py);
    let e1 = edge(cx, cy, ax, ay, px, py);
    let e2 = edge(ax, ay, bx, by, px, py);
    lemma_edge_translated(bx, by, cx, cy, px, py);
    lemma_edge_translated(cx, cy, ax, ay, px, py);
    lemma_edge_translated(ax, ay, bx, by, px, py);
    lemma_cross_weights(ax - px, ay - py, bx - px, by - py, cx - px, cy - py);
    lemma_edge_sum(ax, ay, bx, by, cx, cy, px, py);
    assert(e0 * (ax - px) + e1 * (bx - px) + e2 * (cx - px) == 0);
    assert(e0 * (ax - px) + e1 * (bx - px) + e2 * (cx - px) == e0 * ax + e1 * bx + e2 * cx - (e0
        + e1 + e2) * px) by (nonlinear_arith);
}

/// The same along y.
proof fn lemma_edge_weights_y(ax: int, ay: int, bx: int, by: int, cx: int, cy: int, px: int, py: int)
    ensures
        edge(bx, by, cx, cy, px, py) * ay + edge(cx, cy, ax, ay, px, py) * by + edge(
            ax,
            ay,
            bx,
            by,
            px,
            py,
        ) * cy == edge(ax, ay, bx, by, cx, cy) * py,
{
    let e0 = edge(bx, by, cx, cy, px, py);
    let e1 = edge(cx, cy, ax, ay, px, py);
    let e2 = edge(ax, ay, bx, by, px, py);
    lemma_edge_translated(bx, by, cx, cy, px, py);
    lemma_edge_translated(cx, cy, ax, ay, px, py);
    lemma_edge_translated(ax, ay, bx, by, px, py);
    lemma_cross_weights(ax - px, ay - py, bx - px, by - py, cx - px, cy - py);
    lemma_edge_sum(ax, ay, bx, by, cx, cy, px, py);
    assert(e0 * (ay - py) + e1 * (by - py) + e2 * (cy - py) == 0);
    assert(e0 * (ay - py) + e1 * (by - py) + e2 * (cy - py) == e0 * ay + e1 * by + e2 * cy - (e0
        + e1 + e2) * py) by (nonlinear_arith);
}

proof fn lemma_weighted_between(e0: int, e1: int, e2: int, a: int, b: int, c: int, lo: int, hi: int)
    requires
        e0 >= 0,
        e1 >= 0,
        e2 >= 0,
        lo <= a <= hi,
        lo <= b <= hi,
        lo <= c <= hi,
    ensures
        (e0 + e1 + e2) * lo <= e0 * a + e1 * b + e2 * c <= (e0 + e1 + e2) * hi,
{
    assert((e0 + e1 + e2) * lo <= e0 * a + e1 * b + e2 * c <= (e0 + e1 + e2) * hi)
        by (nonlinear_arith)
        requires
            e0 >= 0,
            e1 >= 0,
            e2 >= 0,
            lo <= a <= hi,
            lo <= b <= hi,
            lo <= c <= hi,
    ;
}

proof fn lemma_scaled_between(d: int, p: int, lo: int, hi: int)
    requires
        d > 0,
        d * lo <= d * p <= d * hi,
    ensures
        lo <= p <= hi,
{
    assert(lo <= p <= hi) by (nonlinear_arith)
        requires
            d > 0,
            d * lo <= d * p <= d * hi,
    ;
}

/// A pixel whose centre a positively wound triangle covers lies within the
/// triangle's bounding box.
proof fn lemma_covered_in_box(t: ScreenTriangle, x: int, y: int)
    requires
        t.area2() > 0,
        t.covers(x, y),
    ensures
        min3(t.wide_xs()) <= x <= max3(t.wide_xs()),
        min3(t.wide_ys()) <= y <= max3(t.wide_ys()),
{
    let (ax, ay) = (2 * t.xs[0], 2 * t.ys[0]);
    let (bx, by) = (2 * t.xs[1], 2 * t.ys[1]);
    let (cx, cy) = (2 * t.xs[2], 2 * t.ys[2]);
    let (px, py) = (2 * x + 1, 2 * y + 1);
    let e0 = edge(bx, by, cx, cy, px, py);
    let e1 = edge(cx, cy, ax, ay, px, py);
    let e2 = edge(ax, ay, bx, by, px, py);
    lemma_edge_sum(ax, ay, bx, by, cx, cy, px, py);
    lemma_edge_scaled(t.xs[0] as int, t.ys[0] as int, t.xs[1] as int, t.ys[1] as int, t.xs[2] as int, t.ys[2] as int);
    let d = e0 + e1 + e2;
    assert(d > 0);
    lemma_edge_weights_x(ax, ay, bx, by, cx, cy, px, py);
    lemma_edge_weights_y(ax, ay, bx, by, cx, cy, px, py);
    lemma_weighted_between(e0, e1, e2, ax, bx, cx, 2 * min3(t.wide_xs()), 2 * max3(t.wide_xs()));
    lemma_weighted_between(e0, e1, e2, ay, by, cy, 2 * min3(t.wide_ys()), 2 * max3(t.wide_ys()));
    lemma_scaled_between(d, px, 2 * min3(t.wide_xs()), 2 * max3(t.wide_xs()));
    lemma_scaled_between(d, py, 2 * min3(t.wide_ys()), 2 * max3(t.wide_ys()));
}

impl Command {
    /// Draws a triangle with no depth buffer: culls it by winding, reorders a
    /// clockwise one, skips a degenerate one, and writes its shaded colour to
    /// every pixel of the target and viewport whose centre it covers.
    pub fn draw_triangle(&self, target: &mut RenderTarget, tri: &ScreenTriangle)
        requires
            old(target).wf(),
        ensures
            final(target).wf(),
            final(target).width == old(target).width,
            final(target).height == old(target).height,
            forall|x: int, y: int|
                #![trigger pixel_at(final(target).pixels@, old(target).width as int, x, y)]
                old(target).in_bounds(x, y) ==> pixel_at(
                    final(target).pixels@,
                    old(target).width as int,
                    x,
                    y,
                ) == if triangle_writes(
                    self.spec_cull_mode(),
                    self.spec_viewport(),
                    old(target).width,
                    old(target).height,
                    *tri,
                    x,
                    y,
                ) {
                    drawn_as(self.spec_cull_mode(), *tri).shade(x, y)
                } else {
                    pixel_at(old(target).pixels@, old(target).width as int, x, y)
                },
    {
        let area = tri.signed_area();
        let action = winding_action(self.cull_mode(), area < 0);
        if action == WindingAction::Discard || area == 0 {
            return ;
        }
        let t = if action == WindingAction::Swap {
            tri.swapped()
        } else {
            *tri
        };
        let xs: [i64; 3] = [tri.xs[0] as i64, tri.xs[1] as i64, tri.xs[2] as i64];
        let ys: [i64; 3] = [tri.ys[0] as i64, tri.ys[1] as i64, tri.ys[2] as i64];
        assert(xs == tri.wide_xs() && ys == tri.wide_ys());
        let ghost start = target.pixels@;
        let ghost w = target.width as int;
        match self.viewport().pixel_bounds(target.width, target.height, xs, ys) {
            None => {},
            Some(rect) => {
                let source = |x: u32, y: u32| -> (f: Option<Fragment<i64>>)
                    ensures
                        f == t.spec_fragment(x as int, y as int),
                    { t.fragment(x, y) };
                self.draw_fragments(source, target, rect);
                proof {
                    assert forall|x: int, y: int| #[trigger] old(target).in_bounds(x, y) && rect.contains(x, y)
                        implies pixel_at(target.pixels@, w, x, y) == match t.spec_fragment(x, y) {
                            Some(f) => f.color,
                            None => pixel_at(start, w, x, y),
                        } by {
                        assert(drawn(source, rect, pixel_at(start, w, x, y), x, y, pixel_at(target.pixels@, w, x, y)));
                        let r = choose|r: Option<Fragment<i64>>|
                            #[trigger] source.ensures((x as u32, y as u32), r) && pixel_at(target.pixels@, w, x, y) == match r {
                                Some(f) => f.color,
                                None => pixel_at(start, w, x, y),
                            };
                        assert(r == t.spec_fragment(x, y));
                    }
                }
            },
        }
    }

    /// Draws a triangle against an integer depth buffer: as
    /// `draw_triangle`, but a covered pixel is written only where the
    /// triangle's depth passes the depth test, and its depth is stored when
    /// depth writes are on.
    pub fn draw_triangle_with_depth(
        &self,
        target: &mut RenderTarget,
        depth: &mut Image<i64>,
        tri: &ScreenTriangle,
    )
        requires
            old(target).wf(),
            old(depth).wf(),
            old(depth).width == old(target).width,
            old(depth).height == old(target).height,
        ensures
            final(target).wf(),
            final(depth).wf(),
            final(target).width == old(target).width,
            final(target).height == old(target).height,
            final(depth).width == old(depth).width,
            final(depth).height == old(depth).height,
            forall|x: int, y: int|
                #![trigger pixel_at(final(target).pixels@, old(target).width as int, x, y)]
                old(target).in_bounds(x, y) ==> pixel_at(
                    final(target).pixels@,
                    old(target).width as int,
                    x,
                    y,
                ) == if triangle_writes(
                    self.spec_cull_mode(),
                    self.spec_viewport(),
                    old(target).width,
                    old(target).height,
                    *tri,
                    x,
                    y,
                ) && depth_passes(
                    self.spec_depth_state().test,
                    int_depth_order(tri.depth, pixel_at(old(depth).pixels@, old(target).width as int, x, y)),
                ) {
                    drawn_as(self.spec_cull_mode(), *tri).shade(x, y)
                } else {
                    pixel_at(old(target).pixels@, old(target).width as int, x, y)
                },
            forall|x: int, y: int|
                #![trigger pixel_at(final(depth).pixels@, old(target).width as int, x, y)]
                old(target).in_bounds(x, y) ==> pixel_at(
                    final(depth).pixels@,
                    old(target).width as int,
                    x,
                    y,
                ) == if triangle_writes(
                    self.spec_cull_mode(),
                    self.spec_viewport(),
                    old(target).width,
                    old(target).height,
                    *tri,
                    x,
                    y,
                ) && depth_passes(
                    self.spec_depth_state().test,
                    int_depth_order(tri.depth, pixel_at(old(depth).pixels@, old(target).width as int, x, y)),
                ) && self.spec_depth_state().write {
                    tri.depth
                } else {
                    pixel_at(old(depth).pixels@, old(target).width as int, x, y)
                },
    {
        let area = tri.signed_area();
        let action = winding_action(self.cull_mode(), area < 0);
        if action == WindingAction::Discard || area == 0 {
            return ;
        }
        let t = if action == WindingAction::Swap {
            tri.swapped()
        } else {
            *tri
        };
        let xs: [i64; 3] = [tri.xs[0] as i64, tri.xs[1] as i64, tri.xs[2] as i64];
        let ys: [i64; 3] = [tri.ys[0] as i64, tri.ys[1] as i64, tri.ys[2] as i64];
        assert(xs == tri.wide_xs() && ys == tri.wide_ys());
        let ghost start = target.pixels@;
        let ghost start_depth = depth.pixels@;
        let ghost w = target.width as int;
        let ghost state = self.spec_depth_state();
        match self.viewport().pixel_bounds(target.width, target.height, xs, ys) {
            None => {},
            Some(rect) => {
                let source = |x: u32, y: u32| -> (f: Option<Fragment<i64>>)
                    ensures
                        f == t.spec_fragment(x as int, y as int),
                    { t.fragment(x, y) };
                let order = |z: i64, stored: i64| -> (o: DepthOrder)
                    ensures
                        o == int_depth_order(z, stored),
                    { compare_depth(z, stored) };
                self.draw_fragments_with_depth(source, order, target, depth, rect);
                proof {
                    assert forall|x: int, y: int| #[trigger] old(target).in_bounds(x, y) && rect.contains(x, y)
                        implies match t.spec_fragment(x, y) {
                            Some(f) => resolved(
                                state,
                                f,
                                int_depth_order(f.depth, pixel_at(start_depth, w, x, y)),
                                pixel_at(start, w, x, y),
                                pixel_at(start_depth, w, x, y),
                                pixel_at(target.pixels@, w, x, y),
                                pixel_at(depth.pixels@, w, x, y),
                            ),
                            None => pixel_at(target.pixels@, w, x, y) == pixel_at(start, w, x, y)
                                && pixel_at(depth.pixels@, w, x, y) == pixel_at(start_depth, w, x, y),
                        } by {
                        let old_c = pixel_at(start, w, x, y);
                        let old_d = pixel_at(start_depth, w, x, y);
                        let now_c = pixel_at(target.pixels@, w, x, y);
                        let now_d = pixel_at(depth.pixels@, w, x, y);
                        assert(depth_drawn(state, source, order, rect, old_c, old_d, x, y, now_c, now_d));
                        let r = choose|r: Option<Fragment<i64>>|
                            #[trigger] source.ensures((x as u32, y as u32), r) && match r {
                                Some(f) => exists|o: DepthOrder|
                                    #[trigger] order.ensures((f.depth, old_d), o) && resolved(state, f, o, old_c, old_d, now_c, now_d),
                                None => now_c == old_c && now_d == old_d,
                            };
                        assert(r == t.spec_fragment(x, y));
                        if let Some(f) = r {
                            let o = choose|o: DepthOrder|
                                #[trigger] order.ensures((f.depth, old_d), o) && resolved(state, f, o, old_c, old_d, now_c, now_d);
                            assert(o == int_depth_order(f.depth, old_d));
                        }
                    }
                }
            },
        }
    }
}

proof fn lemma_swapped_edges(t: ScreenTriangle, x: int, y: int)
    ensures
        t.spec_swapped().edge_at(0, 1, x, y) == -t.edge_at(2, 0, x, y),
        t.spec_swapped().edge_at(1, 2, x, y) == -t.edge_at(1, 2, x, y),
        t.spec_swapped().edge_at(2, 0, x, y) == -t.edge_at(0, 1, x, y),
        t.spec_swapped().area2() == -t.area2(),
        min3(t.spec_swapped().wide_xs()) == min3(t.wide_xs()),
        max3(t.spec_swapped().wide_xs()) == max3(t.wide_xs()),
        min3(t.spec_swapped().wide_ys()) == min3(t.wide_ys()),
        max3(t.spec_swapped().wide_ys()) == max3(t.wide_ys()),
{
    let (ax, ay) = (t.xs[0] as int, t.ys[0] as int);
    let (bx, by) = (t.xs[1] as int, t.ys[1] as int);
    let (cx, cy) = (t.xs[2] as int, t.ys[2] as int);
    let (px, py) = (2 * x + 1, 2 * y + 1);
    lemma_edge_reversed(2 * cx, 2 * cy, 2 * ax, 2 * ay, px, py);
    lemma_edge_reversed(2 * bx, 2 * by, 2 * cx, 2 * cy, px, py);
    lemma_edge_reversed(2 * ax, 2 * ay, 2 * bx, 2 * by, px, py);
    lemma_edge_sum(ax, ay, cx, cy, bx, by, ax, ay);
    lemma_edge_expanded(cx, cy, bx, by, ax, ay);
    lemma_edge_expanded(bx, by, ax, ay, ax, ay);
    lemma_edge_expanded(ax, ay, cx, cy, ax, ay);
    lemma_edge_expanded(ax, ay, bx, by, cx, cy);
    lemma_edge_expanded(ax, ay, cx, cy, bx, by);
    assert(bx * ay == ay * bx && ax * by == by * ax && cx * by == by * cx && ax * cy == cy * ax
        && bx * cy == cy * bx && cx * ay == ay * cx && ax * ay == ay * ax) by (nonlinear_arith);
}

proof fn lemma_sum_is_area(t: ScreenTriangle, x: int, y: int)
    ensures
        t.edge_at(0, 1, x, y) + t.edge_at(1, 2, x, y) + t.edge_at(2, 0, x, y) == 4 * t.area2(),
{
    lemma_edge_sum(
        2 * t.xs[0],
        2 * t.ys[0],
        2 * t.xs[1],
        2 * t.ys[1],
        2 * t.xs[2],
        2 * t.ys[2],
        2 * x + 1,
        2 * y + 1,
    );
    lemma_edge_scaled(t.xs[0] as int, t.ys[0] as int, t.xs[1] as int, t.ys[1] as int, t.xs[2] as int, t.ys[2] as int);
}

/// At every pixel that a positively wound triangle covers, the three edge
/// functions are its unnormalised barycentric weights: none is negative,
/// they sum to the triangle's doubled area (so divided by it they sum to
/// one), and weighting the vertices by them gives the pixel centre.
pub proof fn lemma_barycentric_partition(t: ScreenTriangle, x: int, y: int)
    requires
        t.area2() > 0,
        t.covers(x, y),
    ensures
        t.edge_at(1, 2, x, y) >= 0,
        t.edge_at(2, 0, x, y) >= 0,
        t.edge_at(0, 1, x, y) >= 0,
        t.edge_at(1, 2, x, y) + t.edge_at(2, 0, x, y) + t.edge_at(0, 1, x, y) == 4 * t.area2(),
        t.edge_at(1, 2, x, y) * (2 * t.xs[0]) + t.edge_at(2, 0, x, y) * (2 * t.xs[1])
            + t.edge_at(0, 1, x, y) * (2 * t.xs[2]) == 4 * t.area2() * (2 * x + 1),
        t.edge_at(1, 2, x, y) * (2 * t.ys[0]) + t.edge_at(2, 0, x, y) * (2 * t.ys[1])
            + t.edge_at(0, 1, x, y) * (2 * t.ys[2]) == 4 * t.area2() * (2 * y + 1),
{
    lemma_sum_is_area(t, x, y);
    let (ax, ay) = (2 * t.xs[0], 2 * t.ys[0]);
    let (bx, by) = (2 * t.xs[1], 2 * t.ys[1]);
    let (cx, cy) = (2 * t.xs[2], 2 * t.ys[2]);
    lemma_edge_weights_x(ax, ay, bx, by, cx, cy, 2 * x + 1, 2 * y + 1);
    lemma_edge_weights_y(ax, ay, bx, by, cx, cy, 2 * x + 1, 2 * y + 1);
    lemma_edge_sum(ax, ay, bx, by, cx, cy, 2 * x + 1, 2 * y + 1);
    lemma_edge_scaled(t.xs[0] as int, t.ys[0] as int, t.xs[1] as int, t.ys[1] as int, t.xs[2] as int, t.ys[2] as int);
}

/// With no culling, a non-degenerate triangle writes exactly the pixels of
/// the target and viewport whose centres lie inside it or on its edges,
/// whichever way it winds.
pub proof fn lemma_coverage_partition(
    vp: Viewport,
    width: u32,
    height: u32,
    t: ScreenTriangle,
    x: int,
    y: int,
)
    requires
        t.area2() != 0,
    ensures
        triangle_writes(CullMode::Off, vp, width, height, t, x, y) <==> (in_view(
            vp,
            width,
            height,
            x,
            y,
        ) && t.contains_centre(x, y)),
{
    lemma_sum_is_area(t, x, y);
    lemma_swapped_edges(t, x, y);
    if t.area2() > 0 {
        if t.covers(x, y) {
            lemma_covered_in_box(t, x, y);
        }
    } else {
        let s = t.spec_swapped();
        if s.covers(x, y) {
            lemma_covered_in_box(s, x, y);
        }
    }
}

/// Where every vertex has the same colour, every pixel a draw writes takes
/// exactly that colour, whatever the cull mode.
pub proof fn lemma_uniform_colour(
    mode: CullMode,
    vp: Viewport,
    width: u32,
    height: u32,
    t: ScreenTriangle,
    c: Color,
    x: int,
    y: int,
)
    requires
        t.colors[0] == c,
        t.colors[1] == c,
        t.colors[2] == c,
        triangle_writes(mode, vp, width, height, t, x, y),
    ensures
        drawn_as(mode, t).shade(x, y) == c,
{
    let d = drawn_as(mode, t);
    assert(d.colors[0] == c && d.colors[1] == c && d.colors[2] == c);
    lemma_blend_uniform(d.edge_at(1, 2, x, y), d.edge_at(2, 0, x, y), d.edge_at(0, 1, x, y), c);
}

/// Drawing a triangle once culling back faces and once culling front faces
/// writes each pixel that a draw without culling writes exactly once, and
/// no other pixel.
pub proof fn lemma_cull_partition(
    vp: Viewport,
    width: u32,
    height: u32,
    t: ScreenTriangle,
    x: int,
    y: int,
)
    ensures
        triangle_writes(CullMode::Off, vp, width, height, t, x, y) ==> (triangle_writes(
            CullMode::BackFace,
            vp,
            width,
            height,
            t,
            x,
            y,
        ) != triangle_writes(CullMode::FrontFace, vp, width, height, t, x, y)),
        !triangle_writes(CullMode::Off, vp, width, height, t, x, y) ==> (!triangle_writes(
            CullMode::BackFace,
            vp,
            width,
            height,
            t,
            x,
            y,
        ) && !triangle_writes(CullMode::FrontFace, vp, width, height, t, x, y)),
{
    lemma_cull_modes_partition(t.area2() < 0);
}

} // verus!
