use vstd::prelude::*;

use crate::math::Color;

verus! {

/// A dense, row-major grid of pixels: pixel `(x, y)` is `pixels[y * width + x]`.
pub struct Image<T> {
    pub pixels: Vec<T>,
    pub width: u32,
    pub height: u32,
}

/// A colour image that a draw writes into.
pub type RenderTarget = Image<Color>;

/// A colour image sampled by shaders.
pub type Texture = Image<Color>;

/// A colour image shown on screen.
pub type ImageView = Image<Color>;

/// Where pixel `(x, y)` lives in a row-major grid `width` wide.
pub open spec fn pixel_index(width: int, x: int, y: int) -> int {
    y * width + x
}

pub(crate) proof fn lemma_index_in_grid(width: int, height: int, x: int, y: int)
    requires
        0 <= x < width,
        0 <= y < height,
    ensures
        0 <= pixel_index(width, x, y) < width * height,
{
    assert(0 <= y * width + x < width * height) by (nonlinear_arith)
        requires
            0 <= x < width,
            0 <= y < height,
    ;
}

impl<T: Copy> Image<T> {
    /// The pixel buffer holds exactly `width * height` pixels.
    pub open spec fn wf(&self) -> bool {
        self.pixels@.len() == self.width as int * self.height as int
    }

    /// Pixel `(x, y)`.
    pub open spec fn at(&self, x: int, y: int) -> T {
        self.pixels@[pixel_index(self.width as int, x, y)]
    }

    pub open spec fn in_bounds(&self, x: int, y: int) -> bool {
        0 <= x < self.width && 0 <= y < self.height
    }

    /// An image `width` by `height` whose pixels all hold `T::default()`.
    pub fn new(width: u32, height: u32) -> (img: Self) where T: Default
        requires
            width as int * height as int <= usize::MAX,
        ensures
            img.wf(),
            img.width == width,
            img.height == height,
            forall|i: int, j: int|
                0 <= i < img.pixels@.len() && 0 <= j < img.pixels@.len() ==> img.pixels@[i]
                    == img.pixels@[j],
    {
        let fill = T::default();
        let n = (width as usize) * (height as usize);
        let mut pixels: Vec<T> = Vec::with_capacity(n);
        let mut i: usize = 0;
        while i < n
            invariant
                i <= n,
                pixels@.len() == i,
                forall|k: int| 0 <= k < i ==> pixels@[k] == fill,
            decreases n - i,
        {
            pixels.push(fill);
            i = i + 1;
        }
        Image { pixels, width, height }
    }

    fn index(&self, x: u32, y: u32) -> (i: usize)
        requires
            self.wf(),
            self.in_bounds(x as int, y as int),
        ensures
            i == pixel_index(self.width as int, x as int, y as int),
            i < self.pixels@.len(),
    {
        let n = self.pixels.len();
        proof {
            lemma_index_in_grid(self.width as int, self.height as int, x as int, y as int);
            assert(0 <= y as int * self.width as int <= n) by (nonlinear_arith)
                requires
                    y as int * self.width as int + x as int <= n,
                    x >= 0,
                    y >= 0,
                    self.width >= 0,
            ;
        }
        (y as usize) * (self.width as usize) + (x as usize)
    }

    /// The value of pixel `(x, y)`.
    pub fn get_pixel(&self, x: u32, y: u32) -> (v: T)
        requires
            self.wf(),
            self.in_bounds(x as int, y as int),
        ensures
            v == self.at(x as int, y as int),
    {
        let i = self.index(x, y);
        self.pixels[i]
    }

    /// Overwrites pixel `(x, y)` with `pixel` and leaves every other pixel alone.
    pub fn set_pixel(&mut self, x: u32, y: u32, pixel: T)
        requires
            old(self).wf(),
            old(self).in_bounds(x as int, y as int),
        ensures
            final(self).wf(),
            final(self).width == old(self).width,
            final(self).height == old(self).height,
            final(self).pixels@ == old(self).pixels@.update(
                pixel_index(old(self).width as int, x as int, y as int),
                pixel,
            ),
    {
        let i = self.index(x, y);
        self.pixels.set(i, pixel);
    }

    /// All pixels, row by row.
    pub fn get_pixels(&self) -> (p: &Vec<T>)
        ensures
            p@ == self.pixels@,
    {
        &self.pixels
    }

    /// Sets every pixel to `value`.
    pub fn clear_image(&mut self, value: T)
        requires
            old(self).wf(),
        ensures
            final(self).wf(),
            final(self).width == old(self).width,
            final(self).height == old(self).height,
            forall|i: int| 0 <= i < final(self).pixels@.len() ==> final(self).pixels@[i] == value,
    {
        let n = self.pixels.len();
        let mut i: usize = 0;
        while i < n
            invariant
                i <= n,
                n == self.pixels@.len(),
                self.wf(),
                self.width == old(self).width,
                self.height == old(self).height,
                forall|k: int| 0 <= k < i ==> self.pixels@[k] == value,
            decreases n - i,
        {
            self.pixels.set(i, value);
            i = i + 1;
        }
    }
}

/// `v` limited to the range `[lo, hi]`.
pub open spec fn clamp(v: int, lo: int, hi: int) -> int {
    if v < lo {
        lo
    } else if v > hi {
        hi
    } else {
        v
    }
}

/// How the channels of one pixel are laid out in a decoded image's bytes.
#[derive(Clone, Copy, Debug, PartialEq, Eq, Structural)]
pub enum PixelLayout {
    /// One grey byte.
    R8,
    /// Red and green.
    R8G8,
    /// Red, green and blue.
    R8G8B8,
    /// Red, green, blue and alpha.
    R8G8B8A8,
    /// A layout that is not decoded: every pixel becomes `Color::default()`.
    Unsupported,
}

impl PixelLayout {
    /// Bytes taken by one pixel (none for an unsupported layout).
    pub open spec fn spec_bytes_per_pixel(self) -> int {
        match self {
            PixelLayout::R8 => 1,
            PixelLayout::R8G8 => 2,
            PixelLayout::R8G8B8 => 3,
            PixelLayout::R8G8B8A8 => 4,
            PixelLayout::Unsupported => 0,
        }
    }

    pub fn bytes_per_pixel(&self) -> (n: usize)
        ensures
            n == self.spec_bytes_per_pixel(),
    {
        match self {
            PixelLayout::R8 => 1,
            PixelLayout::R8G8 => 2,
            PixelLayout::R8G8B8 => 3,
            PixelLayout::R8G8B8A8 => 4,
            PixelLayout::Unsupported => 0,
        }
    }
}

/// The colour of the pixel whose bytes start at `k`. Missing colour channels
/// are 0 and a missing alpha is opaque; a grey byte fills red, green and blue.
pub open spec fn decoded_at(layout: PixelLayout, bytes: Seq<u8>, k: int) -> Color {
    match layout {
        PixelLayout::R8 => Color { r: bytes[k], g: bytes[k], b: bytes[k], a: 255 },
        PixelLayout::R8G8 => Color { r: bytes[k], g: bytes[k + 1], b: 0, a: 255 },
        PixelLayout::R8G8B8 => Color { r: bytes[k], g: bytes[k + 1], b: bytes[k + 2], a: 255 },
        PixelLayout::R8G8B8A8 => Color {
            r: bytes[k],
            g: bytes[k + 1],
            b: bytes[k + 2],
            a: bytes[k + 3],
        },
        PixelLayout::Unsupported => Color { r: 0, g: 0, b: 0, a: 0 },
    }
}

fn decode_pixel(layout: PixelLayout, bytes: &Vec<u8>, k: usize) -> (c: Color)
    requires
        k + layout.spec_bytes_per_pixel() <= bytes@.len() <= usize::MAX,
    ensures
        c == decoded_at(layout, bytes@, k as int),
{
    match layout {
        PixelLayout::R8 => Color { r: bytes[k], g: bytes[k], b: bytes[k], a: 255 },
        PixelLayout::R8G8 => Color { r: bytes[k], g: bytes[k + 1], b: 0, a: 255 },
        PixelLayout::R8G8B8 => Color { r: bytes[k], g: bytes[k + 1], b: bytes[k + 2], a: 255 },
        PixelLayout::R8G8B8A8 => Color {
            r: bytes[k],
            g: bytes[k + 1],
            b: bytes[k + 2],
            a: bytes[k + 3],
        },
        PixelLayout::Unsupported => Color { r: 0, g: 0, b: 0, a: 0 },
    }
}

impl Image<Color> {
    /// The texel nearest to integer texel coordinates `(x, y)`, clamped to the
    /// edge: a texture coordinate `(u, v)` reads `(⌊u·width⌋, ⌊v·height⌋)`.
    pub fn pixel_at_texel(&self, x: i64, y: i64) -> (c: Color)
        requires
            self.wf(),
            self.width > 0,
            self.height > 0,
        ensures
            c == self.at(
                clamp(x as int, 0, self.width - 1),
                clamp(y as int, 0, self.height - 1),
            ),
    {
        let tx: u32 = if x < 0 {
            0
        } else if x > (self.width - 1) as i64 {
            self.width - 1
        } else {
            x as u32
        };
        let ty: u32 = if y < 0 {
            0
        } else if y > (self.height - 1) as i64 {
            self.height - 1
        } else {
            y as u32
        };
        self.get_pixel(tx, ty)
    }

    /// A texture `width` by `height` decoded from tightly packed rows of
    /// `bytes` laid out as `layout` says.
    pub fn from_layout(layout: PixelLayout, width: u32, height: u32, bytes: &Vec<u8>) -> (t:
        Texture)
        requires
            width as int * height as int <= usize::MAX,
            bytes@.len() == width as int * height as int * layout.spec_bytes_per_pixel(),
        ensures
            t.wf(),
            t.width == width,
            t.height == height,
            forall|i: int|
                0 <= i < t.pixels@.len() ==> #[trigger] t.pixels@[i] == decoded_at(
                    layout,
                    bytes@,
                    i * layout.spec_bytes_per_pixel(),
                ),
    {
        let n = (width as usize) * (height as usize);
        let step = layout.bytes_per_pixel();
        let len = bytes.len();
        let mut pixels: Vec<Color> = Vec::with_capacity(n);
        let mut i: usize = 0;
        let mut k: usize = 0;
        while i < n
            invariant
                i <= n,
                n == width as int * height as int,
                step == layout.spec_bytes_per_pixel(),
                bytes@.len() == n * step,
                len == bytes@.len(),
                k == i * step,
                pixels@.len() == i,
                forall|j: int|
                    0 <= j < i ==> #[trigger] pixels@[j] == decoded_at(
                        layout,
                        bytes@,
                        j * step,
                    ),
            decreases n - i,
        {
            proof {
                assert((i + 1) * step <= n * step) by (nonlinear_arith)
                    requires
                        i < n,
                        step >= 0,
                ;
                assert((i + 1) * step == i * step + step) by (nonlinear_arith);
            }
            pixels.push(decode_pixel(layout, bytes, k));
            k = k + step;
            i = i + 1;
        }
        Image { pixels, width, height }
    }
}

} // verus!
