use vstd::prelude::*;

use crate::command::{Command, DepthState};
use crate::image::{lemma_index_in_grid, pixel_index, Image, RenderTarget};
use crate::math::Color;
use crate::raster::{depth_passes, DepthOrder};
use crate::viewport::PixelRect;

verus! {

/// What a covered pixel contributes: its depth and its shaded colour.
#[derive(Clone, Copy, Debug)]
pub struct Fragment<D> {
    pub depth: D,
    pub color: Color,
}

impl PixelRect {
    pub open spec fn contains(self, x: int, y: int) -> bool {
        self.x_min <= x <= self.x_max && self.y_min <= y <= self.y_max
    }

    /// Whether the traversal, now at column `cx` and row `cy`, has passed
    /// `(x, y)`: columns go left to right, and each column top to bottom.
    pub open spec fn visited_before(self, cx: int, cy: int, x: int, y: int) -> bool {
        self.contains(x, y) && (x < cx || (x == cx && y < cy))
    }
}

/// Pixel `(x, y)` of a `width`-wide grid holding `pixels`.
pub open spec fn pixel_at<T>(pixels: Seq<T>, width: int, x: int, y: int) -> T {
    pixels[pixel_index(width, x, y)]
}

proof fn lemma_index_injective(width: int, x1: int, y1: int, x2: int, y2: int)
    requires
        0 <= x1 < width,
        0 <= x2 < width,
        0 <= y1,
        0 <= y2,
        pixel_index(width, x1, y1) == pixel_index(width, x2, y2),
    ensures
        x1 == x2 && y1 == y2,
{
    if y1 < y2 {
        assert(y1 * width + width <= y2 * width) by (nonlinear_arith)
            requires
                y1 < y2,
                width > 0,
        ;
    } else if y2 < y1 {
        assert(y2 * width + width <= y1 * width) by (nonlinear_arith)
            requires
                y2 < y1,
                width > 0,
        ;
    }
}

/// Whether `now` is a colour that pixel `(x, y)`, which held `old`, may hold
/// after drawing `source` over `rect` without a depth buffer: outside `rect`
/// it is unchanged; inside, it takes the colour of the fragment that the
/// source gave there, or stays unchanged where the source gave none.
pub open spec fn drawn<D, F: Fn(u32, u32) -> Option<Fragment<D>>>(
    source: F,
    rect: PixelRect,
    old: Color,
    x: int,
    y: int,
    now: Color,
) -> bool {
    if rect.contains(x, y) {
        exists|r: Option<Fragment<D>>|
            #[trigger] source.ensures((x as u32, y as u32), r) && now == match r {
                Some(f) => f.color,
                None => old,
            }
    } else {
        now == old
    }
}

/// What a fragment `f` that compares with the stored depth as `o` leaves in
/// a pixel that held colour `old_c` and depth `old_d`.
pub open spec fn resolved<D>(
    state: DepthState,
    f: Fragment<D>,
    o: DepthOrder,
    old_c: Color,
    old_d: D,
    now_c: Color,
    now_d: D,
) -> bool {
    &&& now_c == if depth_passes(state.test, o) {
        f.color
    } else {
        old_c
    }
    &&& now_d == if depth_passes(state.test, o) && state.write {
        f.depth
    } else {
        old_d
    }
}

/// Whether colour `now_c` and depth `now_d` are what pixel `(x, y)`, which
/// held `old_c` and `old_d`, may hold after drawing `source` over `rect`
/// against a depth buffer, with `order` comparing depths: outside `rect`
/// nothing changes; inside, the fragment that the source gave there (if any)
/// is resolved against the stored depth.
pub open spec fn depth_drawn<D, F: Fn(u32, u32) -> Option<Fragment<D>>, G: Fn(D, D) -> DepthOrder>(
    state: DepthState,
    source: F,
    order: G,
    rect: PixelRect,
    old_c: Color,
    old_d: D,
    x: int,
    y: int,
    now_c: Color,
    now_d: D,
) -> bool {
    if rect.contains(x, y) {
        exists|r: Option<Fragment<D>>|
            #[trigger] source.ensures((x as u32, y as u32), r) && match r {
                Some(f) => exists|o: DepthOrder|
                    #[trigger] order.ensures((f.depth, old_d), o) && resolved(
                        state,
                        f,
                        o,
                        old_c,
                        old_d,
                        now_c,
                        now_d,
                    ),
                None => now_c == old_c && now_d == old_d,
            }
    } else {
        now_c == old_c && now_d == old_d
    }
}

impl Command {
    /// Rasterizes `source` over the pixels of `rect` with no depth buffer:
    /// `source(x, y)` is called once for each pixel of `rect`, a pixel for
    /// which it gives a fragment takes that fragment's colour, and no other
    /// pixel changes.
    pub fn draw_fragments<D, F: Fn(u32, u32) -> Option<Fragment<D>>>(
        &self,
        source: F,
        target: &mut RenderTarget,
        rect: PixelRect,
    )
        requires
            old(target).wf(),
            rect.x_max < old(target).width,
            rect.y_max < old(target).height,
            forall|x: u32, y: u32| source.requires((x, y)),
        ensures
            final(target).wf(),
            final(target).width == old(target).width,
            final(target).height == old(target).height,
            forall|x: int, y: int|
                #![trigger pixel_at(final(target).pixels@, old(target).width as int, x, y)]
                old(target).in_bounds(x, y) ==> drawn(
                    source,
                    rect,
                    pixel_at(old(target).pixels@, old(target).width as int, x, y),
                    x,
                    y,
                    pixel_at(final(target).pixels@, old(target).width as int, x, y),
                ),
    {
        let ghost w = target.width as int;
        let ghost start = target.pixels@;
        let mut x: u32 = rect.x_min;
        while x <= rect.x_max
            invariant
                target.wf(),
                target.width == old(target).width,
                target.height == old(target).height,
                w == target.width,
                start == old(target).pixels@,
                rect.x_max < target.width,
                rect.y_max < target.height,
                rect.x_min <= x,
                x <= rect.x_max + 1 || rect.x_min > rect.x_max,
                forall|x: u32, y: u32| source.requires((x, y)),
                forall|px: int, py: int|
                    #![trigger pixel_at(target.pixels@, w, px, py)]
                    target.in_bounds(px, py) ==> if rect.visited_before(x as int, 0, px, py) {
                        drawn(source, rect, pixel_at(start, w, px, py), px, py, pixel_at(target.pixels@, w, px, py))
                    } else {
                        pixel_at(target.pixels@, w, px, py) == pixel_at(start, w, px, py)
                    },
            decreases rect.x_max + 1 - x,
        {
            let mut y: u32 = rect.y_min;
            while y <= rect.y_max
                invariant
                    target.wf(),
                    target.width == old(target).width,
                    target.height == old(target).height,
                    w == target.width,
                    start == old(target).pixels@,
                    rect.x_max < target.width,
                    rect.y_max < target.height,
                    rect.x_min <= x <= rect.x_max,
                    rect.y_min <= y,
                    y <= rect.y_max + 1 || rect.y_min > rect.y_max,
                    forall|x: u32, y: u32| source.requires((x, y)),
                    forall|px: int, py: int|
                        #![trigger pixel_at(target.pixels@, w, px, py)]
                        target.in_bounds(px, py) ==> if rect.visited_before(x as int, y as int, px, py) {
                            drawn(source, rect, pixel_at(start, w, px, py), px, py, pixel_at(target.pixels@, w, px, py))
                        } else {
                            pixel_at(target.pixels@, w, px, py) == pixel_at(start, w, px, py)
                        },
                decreases rect.y_max + 1 - y,
            {
                let f = source(x, y);
                let ghost before = target.pixels@;
                match f {
                    Some(frag) => {
                        target.set_pixel(x, y, frag.color);
                    },
                    None => {},
                }
                proof {
                    assert forall|px: int, py: int| target.in_bounds(px, py) implies if rect.visited_before(
                        x as int,
                        y + 1,
                        px,
                        py,
                    ) {
                        drawn(source, rect, pixel_at(start, w, px, py), px, py, #[trigger] pixel_at(target.pixels@, w, px, py))
                    } else {
                        pixel_at(target.pixels@, w, px, py) == pixel_at(start, w, px, py)
                    } by {
                        lemma_index_in_grid(w, target.height as int, px, py);
                        lemma_index_in_grid(w, target.height as int, x as int, y as int);
                        if px == x && py == y {
                            assert(rect.contains(px, py));
                            assert(pixel_at(before, w, px, py) == pixel_at(start, w, px, py));
                            if f is None {
                                assert(target.pixels@ == before);
                            }
                            assert(source.ensures((px as u32, py as u32), f));
                        } else {
                            if pixel_index(w, px, py) == pixel_index(w, x as int, y as int) {
                                lemma_index_injective(w, px, py, x as int, y as int);
                            }
                            assert(pixel_at(target.pixels@, w, px, py) == pixel_at(before, w, px, py));
                        }
                    }
                }
                y = y + 1;
            }
            x = x + 1;
        }
    }

    /// Rasterizes `source` over the pixels of `rect` against a depth buffer:
    /// for each pixel of `rect` for which `source` gives a fragment, `order`
    /// compares the fragment's depth with the stored one, and the fragment is
    /// resolved by `resolve_fragment`; no other pixel changes.
    pub fn draw_fragments_with_depth<
        D: Copy,
        F: Fn(u32, u32) -> Option<Fragment<D>>,
        G: Fn(D, D) -> DepthOrder,
    >(
        &self,
        source: F,
        order: G,
        target: &mut RenderTarget,
        depth: &mut Image<D>,
        rect: PixelRect,
    )
        requires
            old(target).wf(),
            old(depth).wf(),
            old(depth).width == old(target).width,
            old(depth).height == old(target).height,
            rect.x_max < old(target).width,
            rect.y_max < old(target).height,
            forall|x: u32, y: u32| source.requires((x, y)),
            forall|z: D, stored: D| order.requires((z, stored)),
        ensures
            final(target).wf(),
            final(depth).wf(),
            final(target).width == old(target).width,
            final(target).height == old(target).height,
            final(depth).width == old(depth).width,
            final(depth).height == old(depth).height,
            forall|x: int, y: int|
                #![trigger pixel_at(final(target).pixels@, old(target).width as int, x, y)]
                #![trigger pixel_at(final(depth).pixels@, old(target).width as int, x, y)]
                old(target).in_bounds(x, y) ==> depth_drawn(
                    self.spec_depth_state(),
                    source,
                    order,
                    rect,
                    pixel_at(old(target).pixels@, old(target).width as int, x, y),
                    pixel_at(old(depth).pixels@, old(target).width as int, x, y),
                    x,
                    y,
                    pixel_at(final(target).pixels@, old(target).width as int, x, y),
                    pixel_at(final(depth).pixels@, old(target).width as int, x, y),
                ),
    {
        let ghost w = target.width as int;
        let ghost start = target.pixels@;
        let ghost start_depth = depth.pixels@;
        let ghost state = self.spec_depth_state();
        let mut x: u32 = rect.x_min;
        while x <= rect.x_max
            invariant
                target.wf(),
                depth.wf(),
                target.width == old(target).width,
                target.height == old(target).height,
                depth.width == old(depth).width,
                depth.height == old(depth).height,
                depth.width == target.width,
                depth.height == target.height,
                w == target.width,
                state == self.spec_depth_state(),
                start == old(target).pixels@,
                start_depth == old(depth).pixels@,
                rect.x_max < target.width,
                rect.y_max < target.height,
                rect.x_min <= x,
                x <= rect.x_max + 1 || rect.x_min > rect.x_max,
                forall|x: u32, y: u32| source.requires((x, y)),
                forall|z: D, stored: D| order.requires((z, stored)),
                forall|px: int, py: int|
                    #![trigger pixel_at(target.pixels@, w, px, py)]
                    #![trigger pixel_at(depth.pixels@, w, px, py)]
                    target.in_bounds(px, py) ==> if rect.visited_before(x as int, 0, px, py) {
                        depth_drawn(state, source, order, rect, pixel_at(start, w, px, py), pixel_at(start_depth, w, px, py), px, py, pixel_at(target.pixels@, w, px, py), pixel_at(depth.pixels@, w, px, py))
                    } else {
                        pixel_at(target.pixels@, w, px, py) == pixel_at(start, w, px, py)
                            && pixel_at(depth.pixels@, w, px, py) == pixel_at(start_depth, w, px, py)
                    },
            decreases rect.x_max + 1 - x,
        {
            let mut y: u32 = rect.y_min;
            while y <= rect.y_max
                invariant
                    target.wf(),
                    depth.wf(),
                    target.width == old(target).width,
                    target.height == old(target).height,
                    depth.width == old(depth).width,
                    depth.height == old(depth).height,
                    depth.width == target.width,
                    depth.height == target.height,
                    w == target.width,
                    state == self.spec_depth_state(),
                    start == old(target).pixels@,
                    start_depth == old(depth).pixels@,
                    rect.x_max < target.width,
                    rect.y_max < target.height,
                    rect.x_min <= x <= rect.x_max,
                    rect.y_min <= y,
                    y <= rect.y_max + 1 || rect.y_min > rect.y_max,
                    forall|x: u32, y: u32| source.requires((x, y)),
                    forall|z: D, stored: D| order.requires((z, stored)),
                    forall|px: int, py: int|
                        #![trigger pixel_at(target.pixels@, w, px, py)]
                        #![trigger pixel_at(depth.pixels@, w, px, py)]
                        target.in_bounds(px, py) ==> if rect.visited_before(x as int, y as int, px, py) {
                            depth_drawn(state, source, order, rect, pixel_at(start, w, px, py), pixel_at(start_depth, w, px, py), px, py, pixel_at(target.pixels@, w, px, py), pixel_at(depth.pixels@, w, px, py))
                        } else {
                            pixel_at(target.pixels@, w, px, py) == pixel_at(start, w, px, py)
                                && pixel_at(depth.pixels@, w, px, py) == pixel_at(start_depth, w, px, py)
                        },
                decreases rect.y_max + 1 - y,
            {
                let f = source(x, y);
                let ghost before = target.pixels@;
                let ghost before_depth = depth.pixels@;
                let ghost mut o: DepthOrder = DepthOrder::Unordered;
                match f {
                    Some(frag) => {
                        let stored = depth.get_pixel(x, y);
                        let cmp = order(frag.depth, stored);
                        proof {
                            o = cmp;
                        }
                        self.resolve_fragment(target, depth, x, y, frag.depth, cmp, frag.color);
                    },
                    None => {},
                }
                proof {
                    assert forall|px: int, py: int| target.in_bounds(px, py) implies if rect.visited_before(
                        x as int,
                        y + 1,
                        px,
                        py,
                    ) {
                        depth_drawn(state, source, order, rect, pixel_at(start, w, px, py), pixel_at(start_depth, w, px, py), px, py, #[trigger] pixel_at(target.pixels@, w, px, py), pixel_at(depth.pixels@, w, px, py))
                    } else {
                        pixel_at(target.pixels@, w, px, py) == pixel_at(start, w, px, py)
                            && pixel_at(depth.pixels@, w, px, py) == pixel_at(start_depth, w, px, py)
                    } by {
                        lemma_index_in_grid(w, target.height as int, px, py);
                        lemma_index_in_grid(w, target.height as int, x as int, y as int);
                        if px == x && py == y {
                            assert(rect.contains(px, py));
                            assert(pixel_at(before, w, px, py) == pixel_at(start, w, px, py));
                            assert(pixel_at(before_depth, w, px, py) == pixel_at(start_depth, w, px, py));
                            assert(source.ensures((px as u32, py as u32), f));
                            match f {
                                Some(frag) => {
                                    assert(order.ensures((frag.depth, pixel_at(start_depth, w, px, py)), o));
                                },
                                None => {
                                    assert(target.pixels@ == before);
                                    assert(depth.pixels@ == before_depth);
                                },
                            }
                        } else {
                            if pixel_index(w, px, py) == pixel_index(w, x as int, y as int) {
                                lemma_index_injective(w, px, py, x as int, y as int);
                            }
                            assert(pixel_at(target.pixels@, w, px, py) == pixel_at(before, w, px, py));
                            assert(pixel_at(depth.pixels@, w, px, py) == pixel_at(before_depth, w, px, py));
                        }
                    }
                }
                y = y + 1;
            }
            x = x + 1;
        }
    }
}

} // verus!
