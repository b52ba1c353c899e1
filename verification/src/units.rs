//! Pixel units and layout constrains.
//!
//! All arithmetic on [`Px`] saturates at the `i32` bounds.
use vstd::prelude::*;

verus! {

/// Clamps a mathematical integer to the `i32` range.
pub open spec fn sat(x: int) -> int {
    if x > i32::MAX as int {
        i32::MAX as int
    } else if x < i32::MIN as int {
        i32::MIN as int
    } else {
        x
    }
}

/// The greater of two integers.
pub open spec fn int_max(a: int, b: int) -> int {
    if a >= b { a } else { b }
}

/// The lesser of two integers.
pub open spec fn int_min(a: int, b: int) -> int {
    if a <= b { a } else { b }
}

/// A length in device pixels.
#[derive(Clone, Copy, Debug, PartialEq, Eq, Hash, PartialOrd, Ord, Default, Structural)]
pub struct Px(pub i32);

/// The largest pixel length, used as the *unbounded* marker.
pub const PX_MAX: i32 = 2147483647i32;

impl Px {
    /// The largest pixel length, `Px(i32::MAX)`.
    pub fn max_px() -> (r: Px)
        ensures
            r.0 == i32::MAX,
    {
        Px(PX_MAX)
    }

    /// Saturating addition.
    pub fn saturating_add(self, rhs: Px) -> (r: Px)
        ensures
            r.0 == sat(self.0 + rhs.0),
    {
        let s: i64 = self.0 as i64 + rhs.0 as i64;
        if s > PX_MAX as i64 {
            Px(PX_MAX)
        } else if s < i32::MIN as i64 {
            Px(i32::MIN)
        } else {
            Px(s as i32)
        }
    }

    /// Saturating subtraction.
    pub fn saturating_sub(self, rhs: Px) -> (r: Px)
        ensures
            r.0 == sat(self.0 - rhs.0),
    {
        let s: i64 = self.0 as i64 - rhs.0 as i64;
        if s > PX_MAX as i64 {
            Px(PX_MAX)
        } else if s < i32::MIN as i64 {
            Px(i32::MIN)
        } else {
            Px(s as i32)
        }
    }

    /// Saturating multiplication.
    pub fn saturating_mul(self, rhs: Px) -> (r: Px)
        ensures
            r.0 == sat(self.0 * rhs.0),
    {
        let a: i64 = self.0 as i64;
        let b: i64 = rhs.0 as i64;
        assert(-2147483648 <= a <= 2147483647);
        assert(-2147483648 <= b <= 2147483647);
        assert(a * b <= 4611686018427387904 && a * b >= -4611686016279904256) by (nonlinear_arith)
            requires
                -2147483648 <= a <= 2147483647,
                -2147483648 <= b <= 2147483647,
        ;
        let s: i64 = a * b;
        if s > PX_MAX as i64 {
            Px(PX_MAX)
        } else if s < i32::MIN as i64 {
            Px(i32::MIN)
        } else {
            Px(s as i32)
        }
    }

    /// The larger of the two lengths.
    pub fn max(self, other: Px) -> (r: Px)
        ensures
            r.0 == int_max(self.0 as int, other.0 as int),
    {
        if self.0 >= other.0 {
            self
        } else {
            other
        }
    }

    /// The smaller of the two lengths.
    pub fn min(self, other: Px) -> (r: Px)
        ensures
            r.0 == int_min(self.0 as int, other.0 as int),
    {
        if self.0 <= other.0 {
            self
        } else {
            other
        }
    }
}

/// A size in device pixels.
#[derive(Clone, Copy, Debug, PartialEq, Eq, Hash, Default, Structural)]
pub struct PxSize {
    pub width: Px,
    pub height: Px,
}

impl PxSize {
    /// A size of `width` and `height`.
    pub fn new(width: Px, height: Px) -> (r: PxSize)
        ensures
            r.width == width,
            r.height == height,
    {
        PxSize { width, height }
    }

    /// The zero size.
    pub fn zero() -> (r: PxSize)
        ensures
            r.width.0 == 0,
            r.height.0 == 0,
    {
        PxSize { width: Px(0), height: Px(0) }
    }

    /// Component-wise maximum.
    pub fn max(self, other: PxSize) -> (r: PxSize)
        ensures
            r.width.0 == int_max(self.width.0 as int, other.width.0 as int),
            r.height.0 == int_max(self.height.0 as int, other.height.0 as int),
    {
        PxSize { width: self.width.max(other.width), height: self.height.max(other.height) }
    }

    /// Component-wise minimum.
    pub fn min(self, other: PxSize) -> (r: PxSize)
        ensures
            r.width.0 == int_min(self.width.0 as int, other.width.0 as int),
            r.height.0 == int_min(self.height.0 as int, other.height.0 as int),
    {
        PxSize { width: self.width.min(other.width), height: self.height.min(other.height) }
    }
}

/// A point in device pixels.
#[derive(Clone, Copy, Debug, PartialEq, Eq, Hash, Default)]
pub struct PxPoint {
    pub x: Px,
    pub y: Px,
}

impl PxPoint {
    /// A point at `x`, `y`.
    pub fn new(x: Px, y: Px) -> (r: PxPoint)
        ensures
            r.x == x,
            r.y == y,
    {
        PxPoint { x, y }
    }
}

/// A rectangle in device pixels.
#[derive(Clone, Copy, Debug, PartialEq, Eq, Hash, Default)]
pub struct PxRect {
    pub origin: PxPoint,
    pub size: PxSize,
}

impl PxRect {
    /// A rectangle at `origin` of `size`.
    pub fn new(origin: PxPoint, size: PxSize) -> (r: PxRect)
        ensures
            r.origin == origin,
            r.size == size,
    {
        PxRect { origin, size }
    }
}

/// Offsets around the four sides of a box.
#[derive(Clone, Copy, Debug, PartialEq, Eq, Hash, Default)]
pub struct PxSideOffsets {
    pub top: Px,
    pub right: Px,
    pub bottom: Px,
    pub left: Px,
}

/// A pair of booleans, one per axis.
#[derive(Clone, Copy, Debug, PartialEq, Eq, Hash, Default)]
pub struct BoolVector2D {
    pub x: bool,
    pub y: bool,
}

impl BoolVector2D {
    /// Component-wise and.
    pub fn and(self, other: BoolVector2D) -> (r: BoolVector2D)
        ensures
            r.x == (self.x && other.x),
            r.y == (self.y && other.y),
    {
        BoolVector2D { x: self.x && other.x, y: self.y && other.y }
    }

    /// Component-wise negation.
    pub fn not(self) -> (r: BoolVector2D)
        ensures
            r.x == !self.x,
            r.y == !self.y,
    {
        BoolVector2D { x: !self.x, y: !self.y }
    }

    /// Picks each component of `a` where the flag is set, otherwise of `b`.
    pub fn select_size(self, a: PxSize, b: PxSize) -> (r: PxSize)
        ensures
            r.width == (if self.x { a.width } else { b.width }),
            r.height == (if self.y { a.height } else { b.height }),
    {
        PxSize {
            width: if self.x { a.width } else { b.width },
            height: if self.y { a.height } else { b.height },
        }
    }
}

/// Constrains on a pixel length.
#[derive(Clone, Copy, Debug, PartialEq, Eq, Hash)]
pub struct PxConstrains {
    /// Maximum allowed length.
    pub max: Px,
    /// Minimum allowed length.
    pub min: Px,
    /// If `max` is the *fill* length, otherwise `min` is. Ignored when the max is unbounded.
    pub fill: bool,
}

impl PxConstrains {
    /// The max is the unbounded marker `i32::MAX`.
    pub open spec fn spec_is_unbounded(self) -> bool {
        self.max.0 == i32::MAX
    }

    /// Fill is requested and the constrains are bounded.
    pub open spec fn spec_actually_fill(self) -> bool {
        self.fill && !self.spec_is_unbounded()
    }

    /// `px` clamped by min, then by max (max wins when min > max).
    pub open spec fn spec_clamp(self, px: int) -> int {
        int_min(int_max(self.min.0 as int, px), self.max.0 as int)
    }

    /// The constrains with `max`, min lowered to it if needed.
    pub open spec fn spec_with_max(self, max: Px) -> PxConstrains {
        PxConstrains { max, min: Px(int_min(self.min.0 as int, max.0 as int) as i32), fill: self.fill }
    }

    /// The constrains with `min`, max raised to it if needed.
    pub open spec fn spec_with_min(self, min: Px) -> PxConstrains {
        PxConstrains { max: Px(int_max(self.max.0 as int, min.0 as int) as i32), min, fill: self.fill }
    }

    /// The constrains with max lowered by `removed` (saturating) and min lowered to it if
    /// needed; unbounded constrains stay unbounded.
    pub open spec fn spec_with_less(self, removed: Px) -> PxConstrains {
        if self.spec_is_unbounded() {
            self
        } else {
            let max = sat(self.max.0 - removed.0);
            PxConstrains { max: Px(max as i32), min: Px(int_min(self.min.0 as int, max) as i32), fill: self.fill }
        }
    }

    /// No constrains: max is `i32::MAX`, min is zero and fill is false.
    pub fn unbounded() -> (r: PxConstrains)
        ensures
            r.max.0 == i32::MAX,
            r.min.0 == 0,
            !r.fill,
    {
        PxConstrains { max: Px::max_px(), min: Px(0), fill: false }
    }

    /// The default value, the same as [`PxConstrains::unbounded`].
    pub fn default() -> (r: PxConstrains)
        ensures
            r.max.0 == i32::MAX,
            r.min.0 == 0,
            !r.fill,
    {
        Self::unbounded()
    }

    /// Exact length constrains, both max and min are `px`, fill is false.
    pub fn exact(px: Px) -> (r: PxConstrains)
        ensures
            r.max == px,
            r.min == px,
            !r.fill,
    {
        PxConstrains { max: px, min: px, fill: false }
    }

    /// Returns if `max` is `i32::MAX`.
    pub fn is_unbounded(&self) -> (r: bool)
        ensures
            r == self.spec_is_unbounded(),
    {
        self.max.0 == PX_MAX
    }

    /// Returns if `max` is equal to `min`.
    pub fn is_exact(&self) -> (r: bool)
        ensures
            r == (self.max == self.min),
    {
        self.max.0 == self.min.0
    }

    /// Returns `true` if fill is requested and the constrains are bounded.
    pub fn actually_fill(&self) -> (r: bool)
        ensures
            r == self.spec_actually_fill(),
    {
        self.fill && !self.is_unbounded()
    }

    /// The length to fill: `max` if it actually fills, otherwise `min`.
    pub fn fill_length(&self) -> (r: Px)
        ensures
            r == (if self.spec_actually_fill() { self.max } else { self.min }),
    {
        if self.actually_fill() {
            self.max
        } else {
            self.min
        }
    }

    /// Clamp `px` by min and max.
    pub fn clamp(&self, px: Px) -> (r: Px)
        ensures
            r.0 == self.spec_clamp(px.0 as int),
    {
        self.min.max(px).min(self.max)
    }

    /// The fill length, or the desired length clamped.
    pub fn fill_or(&self, desired_length: Px) -> (r: Px)
        ensures
            r.0 == (if self.spec_actually_fill() {
                self.max.0 as int
            } else {
                self.spec_clamp(desired_length.0 as int)
            }),
    {
        if self.actually_fill() {
            self.max
        } else {
            self.clamp(desired_length)
        }
    }

    /// Constrains with `max`, min adjusted to be less or equal to the new `max`.
    pub fn with_max(self, max: Px) -> (r: PxConstrains)
        ensures
            r == self.spec_with_max(max),
    {
        let mut s = self;
        s.max = max;
        s.min = s.min.min(s.max);
        s
    }

    /// Constrains with `min`, max adjusted to be more or equal to the new `min`.
    pub fn with_min(self, min: Px) -> (r: PxConstrains)
        ensures
            r == self.spec_with_min(min),
    {
        let mut s = self;
        s.min = min;
        s.max = s.max.max(min);
        s
    }

    /// Constrains with the fill config.
    pub fn with_fill(self, fill: bool) -> (r: PxConstrains)
        ensures
            r.max == self.max,
            r.min == self.min,
            r.fill == fill,
    {
        let mut s = self;
        s.fill = fill;
        s
    }

    /// Constrains with max subtracted by `removed` and min adjusted to be less or equal to max;
    /// unbounded constrains are returned unchanged.
    pub fn with_less(self, removed: Px) -> (r: PxConstrains)
        ensures
            r == self.spec_with_less(removed),
    {
        let mut s = self;
        if !s.is_unbounded() {
            s.max = s.max.saturating_sub(removed);
            s.min = s.min.min(s.max);
        }
        s
    }

    /// Constrains with max added by `added`.
    pub fn with_more(self, added: Px) -> (r: PxConstrains)
        ensures
            r.max.0 == sat(self.max.0 + added.0),
            r.min == self.min,
            r.fill == self.fill,
    {
        let mut s = self;
        s.max = s.max.saturating_add(added);
        s
    }

    /// Constrains with max set to the unbounded value.
    pub fn with_unbounded(self) -> (r: PxConstrains)
        ensures
            r.max.0 == i32::MAX,
            r.min == self.min,
            r.fill == self.fill,
    {
        let mut s = self;
        s.max = Px::max_px();
        s
    }
}

/// Constrains on a pixel size.
#[derive(Clone, Copy, Debug, PartialEq, Eq, Hash)]
pub struct PxSizeConstrains {
    /// Maximum allowed size.
    pub max: PxSize,
    /// Minimum allowed size.
    pub min: PxSize,
    /// Per axis, if `max` is the *fill* size, otherwise `min` is. Ignored on unbounded axes.
    pub fill: BoolVector2D,
}

impl PxSizeConstrains {
    pub open spec fn spec_unbounded_x(self) -> bool {
        self.max.width.0 == i32::MAX
    }

    pub open spec fn spec_unbounded_y(self) -> bool {
        self.max.height.0 == i32::MAX
    }

    pub open spec fn spec_fill_x(self) -> bool {
        self.fill.x && !self.spec_unbounded_x()
    }

    pub open spec fn spec_fill_y(self) -> bool {
        self.fill.y && !self.spec_unbounded_y()
    }

    /// No constrains: max is `i32::MAX` in both axes, min is zero, no fill.
    pub fn unbounded() -> (r: PxSizeConstrains)
        ensures
            r.max.width.0 == i32::MAX && r.max.height.0 == i32::MAX,
            r.min.width.0 == 0 && r.min.height.0 == 0,
            !r.fill.x && !r.fill.y,
    {
        PxSizeConstrains {
            max: PxSize::new(Px::max_px(), Px::max_px()),
            min: PxSize::zero(),
            fill: BoolVector2D { x: false, y: false },
        }
    }

    /// The default value, the same as [`PxSizeConstrains::unbounded`].
    pub fn default() -> (r: PxSizeConstrains)
        ensures
            r.max.width.0 == i32::MAX && r.max.height.0 == i32::MAX,
            r.min.width.0 == 0 && r.min.height.0 == 0,
            !r.fill.x && !r.fill.y,
    {
        Self::unbounded()
    }

    /// Exact size constrains, both max and min are `size`, no fill.
    pub fn exact(size: PxSize) -> (r: PxSizeConstrains)
        ensures
            r.max == size,
            r.min == size,
            !r.fill.x && !r.fill.y,
    {
        PxSizeConstrains { max: size, min: size, fill: BoolVector2D { x: false, y: false } }
    }

    /// Per axis, if the max is `i32::MAX`.
    pub fn is_unbounded(&self) -> (r: BoolVector2D)
        ensures
            r.x == self.spec_unbounded_x(),
            r.y == self.spec_unbounded_y(),
    {
        BoolVector2D { x: self.max.width.0 == PX_MAX, y: self.max.height.0 == PX_MAX }
    }

    /// Per axis, if max is equal to min.
    pub fn is_exact(&self) -> (r: BoolVector2D)
        ensures
            r.x == (self.max.width == self.min.width),
            r.y == (self.max.height == self.min.height),
    {
        BoolVector2D { x: self.max.width.0 == self.min.width.0, y: self.max.height.0 == self.min.height.0 }
    }

    /// If `max.width` is equal to `min.width`.
    pub fn is_exact_width(&self) -> (r: bool)
        ensures
            r == (self.max.width == self.min.width),
    {
        self.max.width.0 == self.min.width.0
    }

    /// If `max.height` is equal to `min.height`.
    pub fn is_exact_height(&self) -> (r: bool)
        ensures
            r == (self.max.height == self.min.height),
    {
        self.max.height.0 == self.min.height.0
    }

    /// Per axis, fill is requested and the axis is bounded.
    pub fn actually_fill(&self) -> (r: BoolVector2D)
        ensures
            r.x == self.spec_fill_x(),
            r.y == self.spec_fill_y(),
    {
        self.fill.and(self.is_unbounded().not())
    }

    /// The size that fills the available space: per axis `max` if it fills, else `min`.
    pub fn fill_size(&self) -> (r: PxSize)
        ensures
            r.width == (if self.spec_fill_x() { self.max.width } else { self.min.width }),
            r.height == (if self.spec_fill_y() { self.max.height } else { self.min.height }),
    {
        self.actually_fill().select_size(self.max, self.min)
    }

    /// A size where both axes fill or are exact, `None` if an axis is neither.
    pub fn fill_or_exact(&self) -> (r: Option<PxSize>)
        ensures
            r == (if (self.spec_fill_x() || self.max.width == self.min.width)
                && (self.spec_fill_y() || self.max.height == self.min.height) {
                Some(self.max)
            } else {
                None::<PxSize>
            }),
    {
        let fill = self.actually_fill();
        let width = if fill.x || self.is_exact_width() {
            self.max.width
        } else {
            return None;
        };
        let height = if fill.y || self.is_exact_height() {
            self.max.height
        } else {
            return None;
        };
        Some(PxSize::new(width, height))
    }

    /// The width that fills the X axis.
    pub fn fill_width(&self) -> (r: Px)
        ensures
            r == (if self.spec_fill_x() { self.max.width } else { self.min.width }),
    {
        if self.actually_fill().x {
            self.max.width
        } else {
            self.min.width
        }
    }

    /// The height that fills the Y axis.
    pub fn fill_height(&self) -> (r: Px)
        ensures
            r == (if self.spec_fill_y() { self.max.height } else { self.min.height }),
    {
        if self.actually_fill().y {
            self.max.height
        } else {
            self.min.height
        }
    }

    /// Clamp `size` by min and max, per axis.
    pub fn clamp(&self, size: PxSize) -> (r: PxSize)
        ensures
            r.width.0 == self.x_constrains_spec().spec_clamp(size.width.0 as int),
            r.height.0 == self.y_constrains_spec().spec_clamp(size.height.0 as int),
    {
        self.min.max(size).min(self.max)
    }

    /// Per axis, the fill length or the desired length clamped.
    pub fn fill_or(&self, desired_size: PxSize) -> (r: PxSize)
        ensures
            r.width.0 == (if self.spec_fill_x() {
                self.max.width.0 as int
            } else {
                self.x_constrains_spec().spec_clamp(desired_size.width.0 as int)
            }),
            r.height.0 == (if self.spec_fill_y() {
                self.max.height.0 as int
            } else {
                self.y_constrains_spec().spec_clamp(desired_size.height.0 as int)
            }),
    {
        let fill = self.actually_fill();
        let width = if fill.x {
            self.max.width
        } else {
            desired_size.width.max(self.min.width).min(self.max.width)
        };
        let height = if fill.y {
            self.max.height
        } else {
            desired_size.height.max(self.min.height).min(self.max.height)
        };
        PxSize::new(width, height)
    }

    pub open spec fn x_constrains_spec(self) -> PxConstrains {
        PxConstrains { max: self.max.width, min: self.min.width, fill: self.fill.x }
    }

    pub open spec fn y_constrains_spec(self) -> PxConstrains {
        PxConstrains { max: self.max.height, min: self.min.height, fill: self.fill.y }
    }

    /// The X-axis constrains.
    pub fn x_constrains(&self) -> (r: PxConstrains)
        ensures
            r == self.x_constrains_spec(),
    {
        PxConstrains { max: self.max.width, min: self.min.width, fill: self.fill.x }
    }

    /// The Y-axis constrains.
    pub fn y_constrains(&self) -> (r: PxConstrains)
        ensures
            r == self.y_constrains_spec(),
    {
        PxConstrains { max: self.max.height, min: self.min.height, fill: self.fill.y }
    }

    /// Constrains with `max`, `min` adjusted to be less or equal to `max` per axis.
    pub fn with_max(self, max: PxSize) -> (r: PxSizeConstrains)
        ensures
            r.max == max,
            r.min.width.0 == int_min(self.min.width.0 as int, max.width.0 as int),
            r.min.height.0 == int_min(self.min.height.0 as int, max.height.0 as int),
            r.fill == self.fill,
    {
        let mut s = self;
        s.max = max;
        s.min = s.min.min(s.max);
        s
    }

    /// Like [`PxSizeConstrains::with_max`], then fill set in both axes.
    pub fn with_max_fill(self, max: PxSize) -> (r: PxSizeConstrains)
        ensures
            r.max == max,
            r.min.width.0 == int_min(self.min.width.0 as int, max.width.0 as int),
            r.min.height.0 == int_min(self.min.height.0 as int, max.height.0 as int),
            r.fill.x && r.fill.y,
    {
        self.with_max(max).with_fill(true, true)
    }

    /// Constrains with `min`, `max` adjusted to be more or equal to `min` per axis.
    pub fn with_min(self, min: PxSize) -> (r: PxSizeConstrains)
        ensures
            r.min == min,
            r.max.width.0 == int_max(self.max.width.0 as int, min.width.0 as int),
            r.max.height.0 == int_max(self.max.height.0 as int, min.height.0 as int),
            r.fill == self.fill,
    {
        let mut s = self;
        s.min = min;
        s.max = s.max.max(s.min);
        s
    }

    /// Constrains with `max.width`, `min.width` adjusted to be less or equal to it.
    pub fn with_max_width(self, max_width: Px) -> (r: PxSizeConstrains)
        ensures
            r.max.width == max_width,
            r.max.height == self.max.height,
            r.min.width.0 == int_min(self.min.width.0 as int, max_width.0 as int),
            r.min.height == self.min.height,
            r.fill == self.fill,
    {
        let mut s = self;
        s.max.width = max_width;
        s.min.width = s.min.width.min(s.max.width);
        s
    }

    /// Like [`PxSizeConstrains::with_max_width`], then `fill.x` set.
    pub fn with_width_fill(self, max_width: Px) -> (r: PxSizeConstrains)
        ensures
            r.max.width == max_width,
            r.max.height == self.max.height,
            r.min.width.0 == int_min(self.min.width.0 as int, max_width.0 as int),
            r.min.height == self.min.height,
            r.fill.x,
            r.fill.y == self.fill.y,
    {
        self.with_max_width(max_width).with_fill_x(true)
    }

    /// Constrains with `max.height`, `min.height` adjusted to be less or equal to it.
    pub fn with_max_height(self, max_height: Px) -> (r: PxSizeConstrains)
        ensures
            r.max.height == max_height,
            r.max.width == self.max.width,
            r.min.height.0 == int_min(self.min.height.0 as int, max_height.0 as int),
            r.min.width == self.min.width,
            r.fill == self.fill,
    {
        let mut s = self;
        s.max.height = max_height;
        s.min.height = s.min.height.min(s.max.height);
        s
    }

    /// Like [`PxSizeConstrains::with_max_height`], then `fill.y` set.
    pub fn with_height_fill(self, max_height: Px) -> (r: PxSizeConstrains)
        ensures
            r.max.height == max_height,
            r.max.width == self.max.width,
            r.min.height.0 == int_min(self.min.height.0 as int, max_height.0 as int),
            r.min.width == self.min.width,
            r.fill.y,
            r.fill.x == self.fill.x,
    {
        self.with_max_height(max_height).with_fill_y(true)
    }

    /// Constrains with `min.width`, `max.width` adjusted to be more or equal to it.
    pub fn with_min_width(self, min_width: Px) -> (r: PxSizeConstrains)
        ensures
            r.min.width == min_width,
            r.min.height == self.min.height,
            r.max.width.0 == int_max(self.max.width.0 as int, min_width.0 as int),
            r.max.height == self.max.height,
            r.fill == self.fill,
    {
        let mut s = self;
        s.min.width = min_width;
        s.max.width = s.max.width.max(s.min.width);
        s
    }

    /// Constrains with `min.height`, `max.height` adjusted to be more or equal to it.
    pub fn with_min_height(self, min_height: Px) -> (r: PxSizeConstrains)
        ensures
            r.min.height == min_height,
            r.min.width == self.min.width,
            r.max.height.0 == int_max(self.max.height.0 as int, min_height.0 as int),
            r.max.width == self.max.width,
            r.fill == self.fill,
    {
        let mut s = self;
        s.min.height = min_height;
        s.max.height = s.max.height.max(s.min.height);
        s
    }

    /// Constrains with the fill config in both axes.
    pub fn with_fill(self, fill_x: bool, fill_y: bool) -> (r: PxSizeConstrains)
        ensures
            r.max == self.max,
            r.min == self.min,
            r.fill.x == fill_x,
            r.fill.y == fill_y,
    {
        let mut s = self;
        s.fill = BoolVector2D { x: fill_x, y: fill_y };
        s
    }

    /// Constrains with the `fill.x` config.
    pub fn with_fill_x(self, fill_x: bool) -> (r: PxSizeConstrains)
        ensures
            r.max == self.max,
            r.min == self.min,
            r.fill.x == fill_x,
            r.fill.y == self.fill.y,
    {
        let mut s = self;
        s.fill.x = fill_x;
        s
    }

    /// Constrains with the `fill.y` config.
    pub fn with_fill_y(self, fill_y: bool) -> (r: PxSizeConstrains)
        ensures
            r.max == self.max,
            r.min == self.min,
            r.fill.y == fill_y,
            r.fill.x == self.fill.x,
    {
        let mut s = self;
        s.fill.y = fill_y;
        s
    }

    /// Max subtracted by `removed` on the bounded axes, then `min` adjusted to be less or
    /// equal to `max` on both axes.
    pub fn with_less_size(self, removed: PxSize) -> (r: PxSizeConstrains)
        ensures
            r.max.width.0 == (if self.spec_unbounded_x() {
                self.max.width.0 as int
            } else {
                sat(self.max.width.0 - removed.width.0)
            }),
            r.max.height.0 == (if self.spec_unbounded_y() {
                self.max.height.0 as int
            } else {
                sat(self.max.height.0 - removed.height.0)
            }),
            r.min.width.0 == int_min(self.min.width.0 as int, r.max.width.0 as int),
            r.min.height.0 == int_min(self.min.height.0 as int, r.max.height.0 as int),
            r.fill == self.fill,
    {
        let mut s = self;
        let unbounded = s.is_unbounded();
        if !unbounded.x {
            s.max.width = s.max.width.saturating_sub(removed.width);
        }
        if !unbounded.y {
            s.max.height = s.max.height.saturating_sub(removed.height);
        }
        s.min = s.min.min(s.max);
        s
    }

    /// Max width subtracted by `removed` and min width adjusted, unless the X axis is unbounded.
    pub fn with_less_width(self, removed: Px) -> (r: PxSizeConstrains)
        ensures
            self.spec_unbounded_x() ==> r == self,
            !self.spec_unbounded_x() ==> {
                &&& r.max.width.0 == sat(self.max.width.0 - removed.0)
                &&& r.min.width.0 == int_min(self.min.width.0 as int, r.max.width.0 as int)
                &&& r.max.height == self.max.height
                &&& r.min.height == self.min.height
                &&& r.fill == self.fill
            },
    {
        let mut s = self;
        if !s.is_unbounded().x {
            s.max.width = s.max.width.saturating_sub(removed);
            s.min.width = s.min.width.min(s.max.width);
        }
        s
    }

    /// Max height subtracted by `removed` and min height adjusted, unless the Y axis is unbounded.
    pub fn with_less_height(self, removed: Px) -> (r: PxSizeConstrains)
        ensures
            self.spec_unbounded_y() ==> r == self,
            !self.spec_unbounded_y() ==> {
                &&& r.max.height.0 == sat(self.max.height.0 - removed.0)
                &&& r.min.height.0 == int_min(self.min.height.0 as int, r.max.height.0 as int)
                &&& r.max.width == self.max.width
                &&& r.min.width == self.min.width
                &&& r.fill == self.fill
            },
    {
        let mut s = self;
        if !s.is_unbounded().y {
            s.max.height = s.max.height.saturating_sub(removed);
            s.min.height = s.min.height.min(s.max.height);
        }
        s
    }

    /// Max added by `added`, per axis.
    pub fn with_more_size(self, added: PxSize) -> (r: PxSizeConstrains)
        ensures
            r.max.width.0 == sat(self.max.width.0 + added.width.0),
            r.max.height.0 == sat(self.max.height.0 + added.height.0),
            r.min == self.min,
            r.fill == self.fill,
    {
        let mut s = self;
        s.max = PxSize::new(s.max.width.saturating_add(added.width), s.max.height.saturating_add(added.height));
        s
    }

    /// Max width added by `added`.
    pub fn with_more_width(self, added: Px) -> (r: PxSizeConstrains)
        ensures
            r.max.width.0 == sat(self.max.width.0 + added.0),
            r.max.height == self.max.height,
            r.min == self.min,
            r.fill == self.fill,
    {
        let mut s = self;
        s.max.width = s.max.width.saturating_add(added);
        s
    }

    /// Max height added by `added`.
    pub fn with_more_height(self, added: Px) -> (r: PxSizeConstrains)
        ensures
            r.max.height.0 == sat(self.max.height.0 + added.0),
            r.max.width == self.max.width,
            r.min == self.min,
            r.fill == self.fill,
    {
        let mut s = self;
        s.max.height = s.max.height.saturating_add(added);
        s
    }

    /// Max width set to the unbounded value.
    pub fn with_unbounded_x(self) -> (r: PxSizeConstrains)
        ensures
            r.max.width.0 == i32::MAX,
            r.max.height == self.max.height,
            r.min == self.min,
            r.fill == self.fill,
    {
        let mut s = self;
        s.max.width = Px::max_px();
        s
    }

    /// Max height set to the unbounded value.
    pub fn with_unbounded_y(self) -> (r: PxSizeConstrains)
        ensures
            r.max.height.0 == i32::MAX,
            r.max.width == self.max.width,
            r.min == self.min,
            r.fill == self.fill,
    {
        let mut s = self;
        s.max.height = Px::max_px();
        s
    }
}

/// Clamping by ordered constrains gives a length between min and max, and a length already
/// in that range is kept.
pub proof fn law_clamp_within(c: PxConstrains, px: int)
    requires
        c.min.0 <= c.max.0,
    ensures
        c.min.0 <= c.spec_clamp(px) <= c.max.0,
        c.min.0 <= px <= c.max.0 ==> c.spec_clamp(px) == px,
{
}

/// Exact constrains clamp every length to their length, and never fill.
pub proof fn law_exact_clamps_to_length(px: Px, x: int)
    ensures
        (PxConstrains { max: px, min: px, fill: false }).spec_clamp(x) == px.0,
        !(PxConstrains { max: px, min: px, fill: false }).spec_actually_fill(),
{
}

/// Unbounded constrains do not fill, even when fill is requested.
pub proof fn law_unbounded_does_not_fill(c: PxConstrains)
    requires
        c.spec_is_unbounded(),
    ensures
        !c.spec_actually_fill(),
{
}

/// Setting max or min, or removing from max, keeps min at most max when it was before, and
/// `with_max`/`with_min` set the value asked.
pub proof fn law_with_keeps_order(c: PxConstrains, v: Px)
    requires
        c.min.0 <= c.max.0,
    ensures
        c.spec_with_max(v).min.0 <= c.spec_with_max(v).max.0,
        c.spec_with_max(v).max == v,
        c.spec_with_min(v).min.0 <= c.spec_with_min(v).max.0,
        c.spec_with_min(v).min == v,
        c.spec_with_less(v).min.0 <= c.spec_with_less(v).max.0,
{
}

} // verus!
