use vstd::prelude::*;

verus! {

/// A rectangle of the render target, in pixels: `x_min..x_max` by
/// `y_min..y_max` (upper bounds exclusive). Normalised device coordinates
/// `[-1, 1]²` map onto it, +y up in the device and down on screen.
#[derive(Clone, Copy, Debug, PartialEq, Eq, Structural)]
pub struct Viewport {
    pub x_min: i32,
    pub y_min: i32,
    pub x_max: i32,
    pub y_max: i32,
}

/// An inclusive rectangle of pixels: columns `x_min..=x_max`, rows
/// `y_min..=y_max`.
#[derive(Clone, Copy, Debug, PartialEq, Eq, Structural)]
pub struct PixelRect {
    pub x_min: u32,
    pub x_max: u32,
    pub y_min: u32,
    pub y_max: u32,
}

pub open spec fn max_int(a: int, b: int) -> int {
    if a >= b {
        a
    } else {
        b
    }
}

pub open spec fn min_int(a: int, b: int) -> int {
    if a <= b {
        a
    } else {
        b
    }
}

pub open spec fn min3(s: [i64; 3]) -> int {
    min_int(s[0] as int, min_int(s[1] as int, s[2] as int))
}

pub open spec fn max3(s: [i64; 3]) -> int {
    max_int(s[0] as int, max_int(s[1] as int, s[2] as int))
}

fn min_of(a: i64, b: i64) -> (r: i64)
    ensures
        r == min_int(a as int, b as int),
{
    if a <= b {
        a
    } else {
        b
    }
}

fn max_of(a: i64, b: i64) -> (r: i64)
    ensures
        r == max_int(a as int, b as int),
{
    if a >= b {
        a
    } else {
        b
    }
}

impl Viewport {
    /// First column a triangle whose vertex columns (rounded down) are `xs`
    /// may cover.
    pub open spec fn first_column(self, xs: [i64; 3]) -> int {
        max_int(max_int(self.x_min as int, 0), min3(xs))
    }

    /// Last column it may cover on a target `width` pixels wide.
    pub open spec fn last_column(self, width: u32, xs: [i64; 3]) -> int {
        min_int(min_int(self.x_max as int, width as int) - 1, max3(xs))
    }

    pub open spec fn first_row(self, ys: [i64; 3]) -> int {
        max_int(max_int(self.y_min as int, 0), min3(ys))
    }

    pub open spec fn last_row(self, height: u32, ys: [i64; 3]) -> int {
        min_int(min_int(self.y_max as int, height as int) - 1, max3(ys))
    }

    /// The pixels that the raster loop visits for a triangle whose vertices,
    /// in screen space and rounded down, have columns `xs` and rows `ys`: the
    /// triangle's bounding box cut to the viewport and to a `width` by
    /// `height` target. `None` when nothing is left.
    pub fn pixel_bounds(&self, width: u32, height: u32, xs: [i64; 3], ys: [i64; 3]) -> (r: Option<
        PixelRect,
    >)
        ensures
            r is None <==> (self.first_column(xs) > self.last_column(width, xs) || self.first_row(
                ys,
            ) > self.last_row(height, ys)),
            r matches Some(rect) ==> {
                &&& rect.x_min == self.first_column(xs)
                &&& rect.x_max == self.last_column(width, xs)
                &&& rect.y_min == self.first_row(ys)
                &&& rect.y_max == self.last_row(height, ys)
                &&& rect.x_max < width && rect.y_max < height
                &&& self.x_min <= rect.x_min && rect.x_max < self.x_max
                &&& self.y_min <= rect.y_min && rect.y_max < self.y_max
            },
    {
        let x_lo = max_of(max_of(self.x_min as i64, 0), min_of(xs[0], min_of(xs[1], xs[2])));
        let x_hi = min_of(
            min_of(self.x_max as i64, width as i64) - 1,
            max_of(xs[0], max_of(xs[1], xs[2])),
        );
        let y_lo = max_of(max_of(self.y_min as i64, 0), min_of(ys[0], min_of(ys[1], ys[2])));
        let y_hi = min_of(
            min_of(self.y_max as i64, height as i64) - 1,
            max_of(ys[0], max_of(ys[1], ys[2])),
        );
        if x_lo > x_hi || y_lo > y_hi {
            None
        } else {
            Some(PixelRect { x_min: x_lo as u32, x_max: x_hi as u32, y_min: y_lo as u32, y_max: y_hi as u32 })
        }
    }
}

} // verus!
