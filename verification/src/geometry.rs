//! Fixed-point lengths, rectangles and scale factors.

use vstd::prelude::*;

verus! {

/// Number of length units in one pixel (or one point of a native page).
pub const UNITS_PER_PIXEL: i64 = 1000;

/// Number of zoom units in a zoom factor of one.
pub const ZOOM_ONE: u32 = 1000;

/// Largest position or extent that the layout ever produces. Two such values
/// can be added without leaving `i64`.
pub const COORD_MAX: i64 = 0x3FFF_FFFF_FFFF_FFFF;

/// `x` moved to the nearest value of `i64`.
pub open spec fn clamp_i64(x: int) -> int {
    if x < i64::MIN as int {
        i64::MIN as int
    } else if x > i64::MAX as int {
        i64::MAX as int
    } else {
        x
    }
}

/// `x` moved to the nearest value of `0 ..= COORD_MAX`.
pub open spec fn clamp_extent(x: int) -> int {
    if x < 0 {
        0
    } else if x > COORD_MAX as int {
        COORD_MAX as int
    } else {
        x
    }
}

/// Narrows a wide intermediate result to `i64`, saturating at both ends.
pub fn saturate(x: i128) -> (r: i64)
    ensures
        r as int == clamp_i64(x as int),
{
    if x < i64::MIN as i128 {
        i64::MIN
    } else if x > i64::MAX as i128 {
        i64::MAX
    } else {
        x as i64
    }
}

/// Saturating sum of two coordinates.
pub fn add_coord(a: i64, b: i64) -> (r: i64)
    ensures
        r as int == clamp_i64(a as int + b as int),
{
    saturate(a as i128 + b as i128)
}

/// Saturating difference of two coordinates.
pub fn sub_coord(a: i64, b: i64) -> (r: i64)
    ensures
        r as int == clamp_i64(a as int - b as int),
{
    saturate(a as i128 - b as i128)
}

/// The axis along which pages are stacked and scrolled.
#[derive(Clone, Copy, Debug, PartialEq, Eq, Structural)]
pub enum Orientation {
    Vertical,
    Horizontal,
}

/// Axis-aligned rectangle given by its four edges.
#[derive(Clone, Copy, Debug, PartialEq, Eq, Structural)]
pub struct Rect {
    pub left: i64,
    pub top: i64,
    pub right: i64,
    pub bottom: i64,
}

impl Rect {
    pub fn new(left: i64, top: i64, right: i64, bottom: i64) -> (r: Rect)
        ensures
            r == (Rect { left, top, right, bottom }),
    {
        Rect { left, top, right, bottom }
    }

    /// Horizontal extent, `right - left`, as a mathematical integer.
    pub open spec fn spec_width(self) -> int {
        self.right as int - self.left as int
    }

    /// Vertical extent, `bottom - top`, as a mathematical integer.
    pub open spec fn spec_height(self) -> int {
        self.bottom as int - self.top as int
    }

    /// Horizontal extent, saturated to `i64`.
    pub fn width(&self) -> (w: i64)
        ensures
            w as int == clamp_i64(self.spec_width()),
    {
        sub_coord(self.right, self.left)
    }

    /// Vertical extent, saturated to `i64`.
    pub fn height(&self) -> (h: i64)
        ensures
            h as int == clamp_i64(self.spec_height()),
    {
        sub_coord(self.bottom, self.top)
    }

    /// The edge that a reader scrolling along `axis` meets first.
    pub open spec fn spec_lead(self, axis: Orientation) -> int {
        match axis {
            Orientation::Vertical => self.top as int,
            Orientation::Horizontal => self.left as int,
        }
    }

    /// The edge that a reader scrolling along `axis` meets last.
    pub open spec fn spec_trail(self, axis: Orientation) -> int {
        match axis {
            Orientation::Vertical => self.bottom as int,
            Orientation::Horizontal => self.right as int,
        }
    }

    /// Whether the two rectangles share a stretch of `axis`: each one's
    /// trailing edge lies strictly beyond the other's leading edge.
    pub open spec fn spec_overlaps(self, other: Rect, axis: Orientation) -> bool {
        self.spec_trail(axis) > other.spec_lead(axis) && self.spec_lead(axis) < other.spec_trail(
            axis,
        )
    }

    pub fn lead(&self, axis: Orientation) -> (edge: i64)
        ensures
            edge as int == self.spec_lead(axis),
    {
        match axis {
            Orientation::Vertical => self.top,
            Orientation::Horizontal => self.left,
        }
    }

    pub fn trail(&self, axis: Orientation) -> (edge: i64)
        ensures
            edge as int == self.spec_trail(axis),
    {
        match axis {
            Orientation::Vertical => self.bottom,
            Orientation::Horizontal => self.right,
        }
    }

    /// Whether the two rectangles share a stretch of `axis`.
    pub fn overlaps(&self, other: &Rect, axis: Orientation) -> (shared: bool)
        ensures
            shared == self.spec_overlaps(*other, axis),
    {
        self.trail(axis) > other.lead(axis) && self.lead(axis) < other.trail(axis)
    }

    /// Whether the point lies inside the rectangle, edges included.
    pub open spec fn spec_contains(self, x: int, y: int) -> bool {
        self.left <= x <= self.right && self.top <= y <= self.bottom
    }

    /// Whether the point lies inside the rectangle, edges included.
    pub fn contains(&self, x: i64, y: i64) -> (inside: bool)
        ensures
            inside == self.spec_contains(x as int, y as int),
    {
        x >= self.left && x <= self.right && y >= self.top && y <= self.bottom
    }
}

/// A scale factor kept as the exact fraction `num / den`.
///
/// A factor with `den == 0` scales nothing: every comparison below is made by
/// cross-multiplication, which needs no division.
#[derive(Clone, Copy, Debug, PartialEq, Eq, Structural)]
pub struct Scale {
    pub num: u64,
    pub den: u64,
}

impl Scale {
    pub fn new(num: u64, den: u64) -> (s: Scale)
        ensures
            s == (Scale { num, den }),
    {
        Scale { num, den }
    }

    /// The factor one.
    pub fn identity() -> (s: Scale)
        ensures
            s == (Scale { num: 1, den: 1 }),
    {
        Scale { num: 1, den: 1 }
    }

    /// Whether `value`, once scaled, is at most `bound`: `value * num <= bound * den`.
    pub open spec fn spec_scaled_le(self, value: int, bound: int) -> bool {
        value * self.num as int <= bound * self.den as int
    }

    /// Whether `value`, once scaled, is at least `bound`: `value * num >= bound * den`.
    pub open spec fn spec_scaled_ge(self, value: int, bound: int) -> bool {
        value * self.num as int >= bound * self.den as int
    }

    /// Whether `value`, once scaled, is at most `bound`.
    pub fn scaled_le(&self, value: i64, bound: i64) -> (r: bool)
        ensures
            r == self.spec_scaled_le(value as int, bound as int),
    {
        let lhs: i128 = wide_product(value, self.num);
        let rhs: i128 = wide_product(bound, self.den);
        lhs <= rhs
    }

    /// Whether `value`, once scaled, is at least `bound`.
    pub fn scaled_ge(&self, value: i64, bound: i64) -> (r: bool)
        ensures
            r == self.spec_scaled_ge(value as int, bound as int),
    {
        let lhs: i128 = wide_product(value, self.num);
        let rhs: i128 = wide_product(bound, self.den);
        lhs >= rhs
    }
}

/// How many pixels are rendered for each pixel on screen.
pub const RENDER_DENSITY: u64 = 2;

/// The number of pixels that an extent takes once it is rendered at `scale`
/// and `RENDER_DENSITY`: `extent * scale * RENDER_DENSITY`, rounded down to
/// whole pixels and held below the largest `i32`. Nothing is rendered of an
/// extent that is not positive, nor at a scale without a denominator.
pub open spec fn spec_pixel_extent(extent: int, scale: Scale) -> int {
    if extent <= 0 || scale.den == 0 {
        0
    } else {
        let pixels = (extent * scale.num as int * RENDER_DENSITY as int) / (scale.den as int
            * UNITS_PER_PIXEL as int);
        if pixels > i32::MAX as int {
            i32::MAX as int
        } else {
            pixels
        }
    }
}

/// The number of pixels that an extent takes once it is rendered.
pub fn pixel_extent(extent: i64, scale: Scale) -> (pixels: i32)
    ensures
        pixels as int == spec_pixel_extent(extent as int, scale),
{
    if extent <= 0 || scale.den == 0 {
        return 0;
    }
    proof {
        lemma_product_bounds(extent as int, scale.num as int);
        assert(0 <= extent as int * scale.num as int) by (nonlinear_arith)
            requires
                0 < extent as int,
                0 <= scale.num as int,
        ;
        assert(0 < scale.den as int * 1000 <= 0xFFFF_FFFF_FFFF_FFFF * 1000) by (nonlinear_arith)
            requires
                0 < scale.den as int <= 0xFFFF_FFFF_FFFF_FFFF,
        ;
        assert(extent as int * scale.num as int * 2 == (extent as int * scale.num as int) * 2)
            by (nonlinear_arith);
    }
    let product: u128 = (extent as u128) * (scale.num as u128);
    assert(RENDER_DENSITY == 2);
    assert(product * 2 <= u128::MAX);
    let doubled: u128 = product * (RENDER_DENSITY as u128);
    let divisor: u128 = (scale.den as u128) * (UNITS_PER_PIXEL as u128);
    let quotient: u128 = doubled / divisor;
    if quotient > i32::MAX as u128 {
        i32::MAX
    } else {
        quotient as i32
    }
}

/// Exact product of a coordinate and an unsigned factor.
pub fn wide_product(a: i64, b: u64) -> (p: i128)
    ensures
        p as int == a as int * b as int,
{
    proof {
        lemma_product_bounds(a as int, b as int);
    }
    (a as i128) * (b as i128)
}

/// The product of an `i64` and a `u64` stays well inside `i128`.
pub proof fn lemma_product_bounds(a: int, b: int)
    requires
        i64::MIN <= a <= i64::MAX,
        0 <= b <= u64::MAX,
    ensures
        -0x8000_0000_0000_0000_0000_0000_0000_0000 < a * b < 0x7FFF_FFFF_FFFF_FFFF_FFFF_FFFF_FFFF_FFFF,
{
    assert(a * b <= 0x7FFF_FFFF_FFFF_FFFF * 0xFFFF_FFFF_FFFF_FFFF) by (nonlinear_arith)
        requires
            a <= 0x7FFF_FFFF_FFFF_FFFF,
            0 <= b <= 0xFFFF_FFFF_FFFF_FFFF,
    ;
    assert(a * b >= -0x8000_0000_0000_0000 * 0xFFFF_FFFF_FFFF_FFFF) by (nonlinear_arith)
        requires
            a >= -0x8000_0000_0000_0000,
            0 <= b <= 0xFFFF_FFFF_FFFF_FFFF,
    ;
}

} // verus!
