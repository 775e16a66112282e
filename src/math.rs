use vstd::prelude::*;

verus! {

/// An exact numeric type that vectors can hold.
///
/// `value` is the mathematical integer a value stands for, and `fits` says
/// which integers the type can represent.
pub trait Number: Copy + Sized {
    spec fn value(self) -> int;

    spec fn fits(v: int) -> bool;

    fn zero() -> (r: Self)
        ensures
            r.value() == 0,
    ;

    fn one() -> (r: Self)
        ensures
            r.value() == 1,
    ;

    fn plus(self, rhs: Self) -> (r: Self)
        requires
            Self::fits(self.value() + rhs.value()),
        ensures
            r.value() == self.value() + rhs.value(),
    ;

    fn minus(self, rhs: Self) -> (r: Self)
        requires
            Self::fits(self.value() - rhs.value()),
        ensures
            r.value() == self.value() - rhs.value(),
    ;

    fn times(self, rhs: Self) -> (r: Self)
        requires
            Self::fits(self.value() * rhs.value()),
        ensures
            r.value() == self.value() * rhs.value(),
    ;
}

impl Number for i32 {
    open spec fn value(self) -> int {
        self as int
    }

    open spec fn fits(v: int) -> bool {
        i32::MIN <= v <= i32::MAX
    }

    fn zero() -> (r: i32) {
        0
    }

    fn one() -> (r: i32) {
        1
    }

    fn plus(self, rhs: i32) -> (r: i32) {
        self + rhs
    }

    fn minus(self, rhs: i32) -> (r: i32) {
        self - rhs
    }

    fn times(self, rhs: i32) -> (r: i32) {
        self * rhs
    }
}

impl Number for i64 {
    open spec fn value(self) -> int {
        self as int
    }

    open spec fn fits(v: int) -> bool {
        i64::MIN <= v <= i64::MAX
    }

    fn zero() -> (r: i64) {
        0
    }

    fn one() -> (r: i64) {
        1
    }

    fn plus(self, rhs: i64) -> (r: i64) {
        self + rhs
    }

    fn minus(self, rhs: i64) -> (r: i64) {
        self - rhs
    }

    fn times(self, rhs: i64) -> (r: i64) {
        self * rhs
    }
}

impl Number for u32 {
    open spec fn value(self) -> int {
        self as int
    }

    open spec fn fits(v: int) -> bool {
        0 <= v <= u32::MAX
    }

    fn zero() -> (r: u32) {
        0
    }

    fn one() -> (r: u32) {
        1
    }

    fn plus(self, rhs: u32) -> (r: u32) {
        self + rhs
    }

    fn minus(self, rhs: u32) -> (r: u32) {
        self - rhs
    }

    fn times(self, rhs: u32) -> (r: u32) {
        self * rhs
    }
}

impl Number for u64 {
    open spec fn value(self) -> int {
        self as int
    }

    open spec fn fits(v: int) -> bool {
        0 <= v <= u64::MAX
    }

    fn zero() -> (r: u64) {
        0
    }

    fn one() -> (r: u64) {
        1
    }

    fn plus(self, rhs: u64) -> (r: u64) {
        self + rhs
    }

    fn minus(self, rhs: u64) -> (r: u64) {
        self - rhs
    }

    fn times(self, rhs: u64) -> (r: u64) {
        self * rhs
    }
}

/// A two-component vector.
#[derive(Clone, Copy, Debug, Default)]
pub struct Vec2<T: Number> {
    pub x: T,
    pub y: T,
}

impl<T: Number> Vec2<T> {
    /// Whether every partial sum of the dot product with `rhs` fits in `T`.
    pub open spec fn dot_fits(self, rhs: Vec2<T>) -> bool {
        &&& T::fits(self.x.value() * rhs.x.value())
        &&& T::fits(self.y.value() * rhs.y.value())
        &&& T::fits(self.x.value() * rhs.x.value() + self.y.value() * rhs.y.value())
    }

    pub fn new(x: T, y: T) -> (r: Self)
        ensures
            r.x == x,
            r.y == y,
    {
        Vec2 { x, y }
    }

    pub fn zero() -> (r: Self)
        ensures
            r.x.value() == 0,
            r.y.value() == 0,
    {
        Self::new(T::zero(), T::zero())
    }

    pub fn dot(self, rhs: Vec2<T>) -> (r: T)
        requires
            self.dot_fits(rhs),
        ensures
            r.value() == self.x.value() * rhs.x.value() + self.y.value() * rhs.y.value(),
    {
        self.x.times(rhs.x).plus(self.y.times(rhs.y))
    }

    /// The component-wise sum.
    pub fn add(self, rhs: Vec2<T>) -> (r: Vec2<T>)
        requires
            T::fits(self.x.value() + rhs.x.value()),
            T::fits(self.y.value() + rhs.y.value()),
        ensures
            r.x.value() == self.x.value() + rhs.x.value(),
            r.y.value() == self.y.value() + rhs.y.value(),
    {
        Vec2 { x: self.x.plus(rhs.x), y: self.y.plus(rhs.y) }
    }

    /// The component-wise difference.
    pub fn sub(self, rhs: Vec2<T>) -> (r: Vec2<T>)
        requires
            T::fits(self.x.value() - rhs.x.value()),
            T::fits(self.y.value() - rhs.y.value()),
        ensures
            r.x.value() == self.x.value() - rhs.x.value(),
            r.y.value() == self.y.value() - rhs.y.value(),
    {
        Vec2 { x: self.x.minus(rhs.x), y: self.y.minus(rhs.y) }
    }

    /// The component-wise product.
    pub fn mul(self, rhs: Vec2<T>) -> (r: Vec2<T>)
        requires
            T::fits(self.x.value() * rhs.x.value()),
            T::fits(self.y.value() * rhs.y.value()),
        ensures
            r.x.value() == self.x.value() * rhs.x.value(),
            r.y.value() == self.y.value() * rhs.y.value(),
    {
        Vec2 { x: self.x.times(rhs.x), y: self.y.times(rhs.y) }
    }
}

/// A three-component vector.
#[derive(Clone, Copy, Debug, Default)]
pub struct Vec3<T: Number> {
    pub x: T,
    pub y: T,
    pub z: T,
}

impl<T: Number> Vec3<T> {
    /// Whether every partial sum of the dot product with `rhs` fits in `T`.
    pub open spec fn dot_fits(self, rhs: Vec3<T>) -> bool {
        let px = self.x.value() * rhs.x.value();
        let py = self.y.value() * rhs.y.value();
        let pz = self.z.value() * rhs.z.value();
        &&& T::fits(px)
        &&& T::fits(py)
        &&& T::fits(pz)
        &&& T::fits(px + py)
        &&& T::fits(px + py + pz)
    }

    pub fn new(x: T, y: T, z: T) -> (r: Self)
        ensures
            r.x == x,
            r.y == y,
            r.z == z,
    {
        Vec3 { x, y, z }
    }

    pub fn zero() -> (r: Self)
        ensures
            r.x.value() == 0,
            r.y.value() == 0,
            r.z.value() == 0,
    {
        Self::new(T::zero(), T::zero(), T::zero())
    }

    pub fn dot(self, rhs: Vec3<T>) -> (r: T)
        requires
            self.dot_fits(rhs),
        ensures
            r.value() == self.x.value() * rhs.x.value() + self.y.value() * rhs.y.value()
                + self.z.value() * rhs.z.value(),
    {
        self.x.times(rhs.x).plus(self.y.times(rhs.y)).plus(self.z.times(rhs.z))
    }

    /// The homogeneous point at this position (w = 1).
    pub fn as_point(&self) -> (r: Vec4<T>)
        ensures
            r.x == self.x,
            r.y == self.y,
            r.z == self.z,
            r.w.value() == 1,
    {
        Vec4 { x: self.x, y: self.y, z: self.z, w: T::one() }
    }

    /// The homogeneous direction along this vector (w = 0).
    pub fn as_vector(&self) -> (r: Vec4<T>)
        ensures
            r.x == self.x,
            r.y == self.y,
            r.z == self.z,
            r.w.value() == 0,
    {
        Vec4 { x: self.x, y: self.y, z: self.z, w: T::zero() }
    }

    /// The component-wise sum.
    pub fn add(self, rhs: Vec3<T>) -> (r: Vec3<T>)
        requires
            T::fits(self.x.value() + rhs.x.value()),
            T::fits(self.y.value() + rhs.y.value()),
            T::fits(self.z.value() + rhs.z.value()),
        ensures
            r.x.value() == self.x.value() + rhs.x.value(),
            r.y.value() == self.y.value() + rhs.y.value(),
            r.z.value() == self.z.value() + rhs.z.value(),
    {
        Vec3 { x: self.x.plus(rhs.x), y: self.y.plus(rhs.y), z: self.z.plus(rhs.z) }
    }

    /// The component-wise difference.
    pub fn sub(self, rhs: Vec3<T>) -> (r: Vec3<T>)
        requires
            T::fits(self.x.value() - rhs.x.value()),
            T::fits(self.y.value() - rhs.y.value()),
            T::fits(self.z.value() - rhs.z.value()),
        ensures
            r.x.value() == self.x.value() - rhs.x.value(),
            r.y.value() == self.y.value() - rhs.y.value(),
            r.z.value() == self.z.value() - rhs.z.value(),
    {
        Vec3 { x: self.x.minus(rhs.x), y: self.y.minus(rhs.y), z: self.z.minus(rhs.z) }
    }

    /// The component-wise product.
    pub fn mul(self, rhs: Vec3<T>) -> (r: Vec3<T>)
        requires
            T::fits(self.x.value() * rhs.x.value()),
            T::fits(self.y.value() * rhs.y.value()),
            T::fits(self.z.value() * rhs.z.value()),
        ensures
            r.x.value() == self.x.value() * rhs.x.value(),
            r.y.value() == self.y.value() * rhs.y.value(),
            r.z.value() == self.z.value() * rhs.z.value(),
    {
        Vec3 { x: self.x.times(rhs.x), y: self.y.times(rhs.y), z: self.z.times(rhs.z) }
    }
}

/// A four-component (homogeneous) vector.
#[derive(Clone, Copy, Debug, Default)]
pub struct Vec4<T: Number> {
    pub x: T,
    pub y: T,
    pub z: T,
    pub w: T,
}

impl<T: Number> Vec4<T> {
    /// Whether every partial sum of the dot product with `rhs` fits in `T`.
    pub open spec fn dot_fits(self, rhs: Vec4<T>) -> bool {
        let px = self.x.value() * rhs.x.value();
        let py = self.y.value() * rhs.y.value();
        let pz = self.z.value() * rhs.z.value();
        let pw = self.w.value() * rhs.w.value();
        &&& T::fits(px)
        &&& T::fits(py)
        &&& T::fits(pz)
        &&& T::fits(pw)
        &&& T::fits(px + py)
        &&& T::fits(px + py + pz)
        &&& T::fits(px + py + pz + pw)
    }

    pub fn new(x: T, y: T, z: T, w: T) -> (r: Self)
        ensures
            r.x == x,
            r.y == y,
            r.z == z,
            r.w == w,
    {
        Vec4 { x, y, z, w }
    }

    pub fn zero() -> (r: Self)
        ensures
            r.x.value() == 0,
            r.y.value() == 0,
            r.z.value() == 0,
            r.w.value() == 0,
    {
        Self::new(T::zero(), T::zero(), T::zero(), T::zero())
    }

    pub fn dot(self, rhs: Vec4<T>) -> (r: T)
        requires
            self.dot_fits(rhs),
        ensures
            r.value() == self.x.value() * rhs.x.value() + self.y.value() * rhs.y.value()
                + self.z.value() * rhs.z.value() + self.w.value() * rhs.w.value(),
    {
        self.x.times(rhs.x).plus(self.y.times(rhs.y)).plus(self.z.times(rhs.z)).plus(
            self.w.times(rhs.w),
        )
    }

    /// The component-wise sum.
    pub fn add(self, rhs: Vec4<T>) -> (r: Vec4<T>)
        requires
            T::fits(self.x.value() + rhs.x.value()),
            T::fits(self.y.value() + rhs.y.value()),
            T::fits(self.z.value() + rhs.z.value()),
            T::fits(self.w.value() + rhs.w.value()),
        ensures
            r.x.value() == self.x.value() + rhs.x.value(),
            r.y.value() == self.y.value() + rhs.y.value(),
            r.z.value() == self.z.value() + rhs.z.value(),
            r.w.value() == self.w.value() + rhs.w.value(),
    {
        Vec4 { x: self.x.plus(rhs.x), y: self.y.plus(rhs.y), z: self.z.plus(rhs.z), w: self.w.plus(rhs.w) }
    }

    /// The component-wise difference.
    pub fn sub(self, rhs: Vec4<T>) -> (r: Vec4<T>)
        requires
            T::fits(self.x.value() - rhs.x.value()),
            T::fits(self.y.value() - rhs.y.value()),
            T::fits(self.z.value() - rhs.z.value()),
            T::fits(self.w.value() - rhs.w.value()),
        ensures
            r.x.value() == self.x.value() - rhs.x.value(),
            r.y.value() == self.y.value() - rhs.y.value(),
            r.z.value() == self.z.value() - rhs.z.value(),
            r.w.value() == self.w.value() - rhs.w.value(),
    {
        Vec4 { x: self.x.minus(rhs.x), y: self.y.minus(rhs.y), z: self.z.minus(rhs.z), w: self.w.minus(rhs.w) }
    }

    /// The component-wise product.
    pub fn mul(self, rhs: Vec4<T>) -> (r: Vec4<T>)
        requires
            T::fits(self.x.value() * rhs.x.value()),
            T::fits(self.y.value() * rhs.y.value()),
            T::fits(self.z.value() * rhs.z.value()),
            T::fits(self.w.value() * rhs.w.value()),
        ensures
            r.x.value() == self.x.value() * rhs.x.value(),
            r.y.value() == self.y.value() * rhs.y.value(),
            r.z.value() == self.z.value() * rhs.z.value(),
            r.w.value() == self.w.value() * rhs.w.value(),
    {
        Vec4 { x: self.x.times(rhs.x), y: self.y.times(rhs.y), z: self.z.times(rhs.z), w: self.w.times(rhs.w) }
    }

    /// `x·other.y − y·other.x`: the signed 2-D cross product of the xy parts
    /// (an edge function, or twice a signed area).
    pub fn det2d(self, other: Vec4<T>) -> (r: T)
        requires
            T::fits(self.x.value() * other.y.value()),
            T::fits(self.y.value() * other.x.value()),
            T::fits(self.x.value() * other.y.value() - self.y.value() * other.x.value()),
        ensures
            r.value() == self.x.value() * other.y.value() - self.y.value() * other.x.value(),
    {
        self.x.times(other.y).minus(self.y.times(other.x))
    }
}

/// An 8-bit-per-channel RGBA colour.
#[derive(Clone, Copy, Debug, Default, PartialEq, Eq, Structural)]
pub struct Color {
    pub r: u8,
    pub g: u8,
    pub b: u8,
    pub a: u8,
}

/// `a + b`, clamped to 255.
pub open spec fn saturated(a: u8, b: u8) -> u8 {
    if a + b > 255 {
        255
    } else {
        (a + b) as u8
    }
}

/// The weighted average `(w0·a + w1·b + w2·c) / (w0 + w1 + w2)`, rounded
/// down; `a` when the weights sum to zero.
pub open spec fn blend_channel(w0: int, w1: int, w2: int, a: u8, b: u8, c: u8) -> u8 {
    if w0 + w1 + w2 == 0 {
        a
    } else {
        ((w0 * a + w1 * b + w2 * c) / (w0 + w1 + w2)) as u8
    }
}

/// `blend_channel` on each channel.
pub open spec fn blend(w0: int, w1: int, w2: int, a: Color, b: Color, c: Color) -> Color {
    Color {
        r: blend_channel(w0, w1, w2, a.r, b.r, c.r),
        g: blend_channel(w0, w1, w2, a.g, b.g, c.g),
        b: blend_channel(w0, w1, w2, a.b, b.b, c.b),
        a: blend_channel(w0, w1, w2, a.a, b.a, c.a),
    }
}

/// The largest weight `Color::blend` takes.
pub const MAX_BLEND_WEIGHT: i128 = 0x1_0000_0000_0000_0000_0000_0000;

fn blend_one(w0: i128, w1: i128, w2: i128, a: u8, b: u8, c: u8) -> (v: u8)
    requires
        0 <= w0 <= MAX_BLEND_WEIGHT,
        0 <= w1 <= MAX_BLEND_WEIGHT,
        0 <= w2 <= MAX_BLEND_WEIGHT,
    ensures
        v == blend_channel(w0 as int, w1 as int, w2 as int, a, b, c),
{
    let sum = w0 + w1 + w2;
    if sum == 0 {
        return a;
    }
    proof {
        assert(0 <= w0 * a <= MAX_BLEND_WEIGHT * 255) by (nonlinear_arith)
            requires
                0 <= w0 <= MAX_BLEND_WEIGHT,
                0 <= a <= 255,
        ;
        assert(0 <= w1 * b <= MAX_BLEND_WEIGHT * 255) by (nonlinear_arith)
            requires
                0 <= w1 <= MAX_BLEND_WEIGHT,
                0 <= b <= 255,
        ;
        assert(0 <= w2 * c <= MAX_BLEND_WEIGHT * 255) by (nonlinear_arith)
            requires
                0 <= w2 <= MAX_BLEND_WEIGHT,
                0 <= c <= 255,
        ;
        let n = w0 * a + w1 * b + w2 * c;
        assert(n <= 255 * (w0 + w1 + w2)) by (nonlinear_arith)
            requires
                0 <= w0,
                0 <= w1,
                0 <= w2,
                a <= 255,
                b <= 255,
                c <= 255,
                n == w0 * a + w1 * b + w2 * c,
        ;
        let s = sum as int;
        assert(0 <= n / s <= 255) by (nonlinear_arith)
            requires
                0 <= n <= 255 * s,
                s > 0,
        ;
    }
    let n = w0 * (a as i128) + w1 * (b as i128) + w2 * (c as i128);
    (n / sum) as u8
}

impl Color {
    /// The colour whose channels are the weighted averages of those of `a`,
    /// `b` and `c` (rounded down), or `a` when the weights sum to zero.
    pub fn blend(w0: i128, w1: i128, w2: i128, a: Color, b: Color, c: Color) -> (r: Color)
        requires
            0 <= w0 <= MAX_BLEND_WEIGHT,
            0 <= w1 <= MAX_BLEND_WEIGHT,
            0 <= w2 <= MAX_BLEND_WEIGHT,
        ensures
            r == blend(w0 as int, w1 as int, w2 as int, a, b, c),
    {
        Color {
            r: blend_one(w0, w1, w2, a.r, b.r, c.r),
            g: blend_one(w0, w1, w2, a.g, b.g, c.g),
            b: blend_one(w0, w1, w2, a.b, b.b, c.b),
            a: blend_one(w0, w1, w2, a.a, b.a, c.a),
        }
    }
}

/// Blending three equal colours with any weights gives that colour.
pub proof fn lemma_blend_uniform(w0: int, w1: int, w2: int, c: Color)
    requires
        w0 >= 0,
        w1 >= 0,
        w2 >= 0,
    ensures
        blend(w0, w1, w2, c, c, c) == c,
{
    let s = w0 + w1 + w2;
    if s != 0 {
        assert forall|v: u8| #[trigger] blend_channel(w0, w1, w2, v, v, v) == v by {
            assert((w0 * v + w1 * v + w2 * v) / s == v) by (nonlinear_arith)
                requires
                    s == w0 + w1 + w2,
                    s > 0,
            ;
        }
        assert(blend_channel(w0, w1, w2, c.r, c.r, c.r) == c.r);
        assert(blend_channel(w0, w1, w2, c.g, c.g, c.g) == c.g);
        assert(blend_channel(w0, w1, w2, c.b, c.b, c.b) == c.b);
        assert(blend_channel(w0, w1, w2, c.a, c.a, c.a) == c.a);
    }
}

impl Color {
    /// Channel `i` in RGBA order.
    pub open spec fn spec_channel(self, i: int) -> u8 {
        if i == 0 {
            self.r
        } else if i == 1 {
            self.g
        } else if i == 2 {
            self.b
        } else {
            self.a
        }
    }

    /// An opaque colour.
    pub fn new(r: u8, g: u8, b: u8) -> (c: Color)
        ensures
            c == (Color { r, g, b, a: 255 }),
    {
        Color { r, g, b, a: 255 }
    }

    pub fn from_rgba(r: u8, g: u8, b: u8, a: u8) -> (c: Color)
        ensures
            c == (Color { r, g, b, a }),
    {
        Color { r, g, b, a }
    }

    /// The bytes in RGBA order.
    pub fn to_bytes(&self) -> (bytes: [u8; 4])
        ensures
            bytes@ == seq![self.r, self.g, self.b, self.a],
    {
        [self.r, self.g, self.b, self.a]
    }

    /// Channel `i`: 0 red, 1 green, 2 blue, 3 alpha.
    pub fn channel(&self, i: usize) -> (v: u8)
        requires
            i < 4,
        ensures
            v == self.spec_channel(i as int),
    {
        if i == 0 {
            self.r
        } else if i == 1 {
            self.g
        } else if i == 2 {
            self.b
        } else {
            self.a
        }
    }

    /// Replaces channel `i` and keeps the others.
    pub fn set_channel(&mut self, i: usize, v: u8)
        requires
            i < 4,
        ensures
            final(self).spec_channel(i as int) == v,
            forall|j: int|
                0 <= j < 4 && j != i ==> final(self).spec_channel(j) == old(self).spec_channel(j),
    {
        if i == 0 {
            self.r = v;
        } else if i == 1 {
            self.g = v;
        } else if i == 2 {
            self.b = v;
        } else {
            self.a = v;
        }
    }

    /// Adds `rhs` channel by channel, each sum clamped to 255.
    pub fn add_saturating(&mut self, rhs: Color)
        ensures
            *final(self) == (Color {
                r: saturated(old(self).r, rhs.r),
                g: saturated(old(self).g, rhs.g),
                b: saturated(old(self).b, rhs.b),
                a: saturated(old(self).a, rhs.a),
            }),
    {
        self.r = self.r.saturating_add(rhs.r);
        self.g = self.g.saturating_add(rhs.g);
        self.b = self.b.saturating_add(rhs.b);
        self.a = self.a.saturating_add(rhs.a);
    }
}

} // verus!
