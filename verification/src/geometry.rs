//! Device-independent geometry on plain integers.
//!
//! Coordinates are signed pixels, sizes are unsigned pixels. Everything is
//! kept inside `COORD_LIMIT` so that any sum or difference of two in-range
//! values fits an `i32` without overflow; the well-formedness predicates
//! below carry that bound through the rest of the crate.

use vstd::prelude::*;

verus! {

/// Bound on every coordinate and size the runtime works with.
pub const COORD_LIMIT: i32 = 0x1000_0000;

/// A position in signed pixels.
#[derive(Clone, Copy, Debug, PartialEq, Eq, Structural)]
pub struct Point {
    pub x: i32,
    pub y: i32,
}

/// An extent in unsigned pixels.
#[derive(Clone, Copy, Debug, PartialEq, Eq, Structural)]
pub struct Size {
    pub width: u32,
    pub height: u32,
}

/// An axis-aligned rectangle: an origin and an extent.
#[derive(Clone, Copy, Debug, PartialEq, Eq, Structural)]
pub struct Rect {
    pub origin: Point,
    pub size: Size,
}

/// A length either already in physical pixels or in device-independent
/// units that must be scaled before use.
#[derive(Clone, Copy, Debug, PartialEq, Eq, Structural)]
pub enum Dimension {
    Px(u32),
    Lp(u32),
}

/// The constraint handed to the root widget's layout for one axis.
#[derive(Clone, Copy, Debug, PartialEq, Eq, Structural)]
pub enum ConstraintLimit {
    /// The widget must occupy exactly this extent.
    Known(u32),
    /// The widget may request less, but anything beyond this extent is
    /// clipped away.
    ClippedAfter(u32),
}

impl Point {
    /// The point is within the bound that keeps coordinate arithmetic exact.
    pub open spec fn in_range(self) -> bool {
        -(COORD_LIMIT as int) <= self.x <= COORD_LIMIT as int
            && -(COORD_LIMIT as int) <= self.y <= COORD_LIMIT as int
    }
}

impl Size {
    /// The extent is within the bound that keeps size arithmetic exact.
    pub open spec fn in_range(self) -> bool {
        self.width <= COORD_LIMIT as u32 && self.height <= COORD_LIMIT as u32
    }

    /// Component-wise minimum.
    pub fn min(self, other: Size) -> (r: Size)
        ensures
            r.width == if self.width <= other.width { self.width } else { other.width },
            r.height == if self.height <= other.height { self.height } else { other.height },
    {
        Size {
            width: if self.width <= other.width { self.width } else { other.width },
            height: if self.height <= other.height { self.height } else { other.height },
        }
    }

    /// Component-wise maximum.
    pub fn max(self, other: Size) -> (r: Size)
        ensures
            r.width == if self.width >= other.width { self.width } else { other.width },
            r.height == if self.height >= other.height { self.height } else { other.height },
    {
        Size {
            width: if self.width >= other.width { self.width } else { other.width },
            height: if self.height >= other.height { self.height } else { other.height },
        }
    }
}

impl Rect {
    /// The rectangle's origin and extent are in range.
    pub open spec fn in_range(self) -> bool {
        self.origin.in_range() && self.size.in_range()
    }

    /// Whether `p` falls inside this rectangle.
    pub open spec fn spec_contains(self, p: Point) -> bool {
        self.origin.x <= p.x < self.origin.x + self.size.width
            && self.origin.y <= p.y < self.origin.y + self.size.height
    }

    /// Whether `p` falls inside this rectangle.
    pub fn contains(&self, p: Point) -> (r: bool)
        requires
            self.in_range(),
            p.in_range(),
        ensures
            r == self.spec_contains(p),
    {
        self.origin.x <= p.x
            && p.x - self.origin.x < self.size.width as i32
            && self.origin.y <= p.y
            && p.y - self.origin.y < self.size.height as i32
    }

    /// The position of `p` relative to this rectangle's origin.
    pub fn relative_to(&self, p: Point) -> (r: Point)
        requires
            self.in_range(),
            p.in_range(),
        ensures
            r.x == p.x - self.origin.x,
            r.y == p.y - self.origin.y,
    {
        Point { x: p.x - self.origin.x, y: p.y - self.origin.y }
    }
}

/// What a device-independent length scales to in physical pixels: the
/// product with the scale in thousandths, rounded down, clamped to the
/// coordinate bound.
pub open spec fn spec_lp_to_px(lp: u32, scale_milli: u32) -> u32 {
    let scaled = (lp * scale_milli) / 1000;
    if scaled > COORD_LIMIT as int {
        COORD_LIMIT as u32
    } else {
        scaled as u32
    }
}

/// Converts a device-independent length to physical pixels at the given
/// scale (in thousandths of a pixel per unit).
pub fn lp_to_px(lp: u32, scale_milli: u32) -> (r: u32)
    requires
        scale_milli <= 16000,
    ensures
        r == spec_lp_to_px(lp, scale_milli),
{
    proof {
        assert(lp as u64 * scale_milli as u64 <= 0xFFFF_FFFFu64 * 16000) by (nonlinear_arith)
            requires
                lp <= 0xFFFF_FFFFu64,
                scale_milli <= 16000,
        ;
    }
    let scaled: u64 = (lp as u64 * scale_milli as u64) / 1000;
    if scaled > COORD_LIMIT as u64 {
        COORD_LIMIT as u32
    } else {
        scaled as u32
    }
}

/// Resolves a dimension to physical pixels at the given scale.
pub fn dimension_to_px(d: Dimension, scale_milli: u32) -> (r: u32)
    requires
        scale_milli <= 16000,
    ensures
        r == spec_dimension_to_px(d, scale_milli),
{
    match d {
        Dimension::Px(v) => if v > COORD_LIMIT as u32 { COORD_LIMIT as u32 } else { v },
        Dimension::Lp(v) => lp_to_px(v, scale_milli),
    }
}

/// What a dimension resolves to in physical pixels, clamped to the
/// coordinate bound.
pub open spec fn spec_dimension_to_px(d: Dimension, scale_milli: u32) -> u32 {
    match d {
        Dimension::Px(v) => if v > COORD_LIMIT as int { COORD_LIMIT as u32 } else { v },
        Dimension::Lp(v) => spec_lp_to_px(v, scale_milli),
    }
}

} // verus!
