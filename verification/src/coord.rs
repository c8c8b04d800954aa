//! Rectangles and positions.
//!
//! A widget owns two rectangles: a pre-layout shape in abstract integer
//! coordinates ([`IRect`]) and, after layout, an actual shape in terminal
//! cell coordinates ([`U16Rect`]).  Layout clips a child's actual shape to
//! lie inside its parent's actual shape, so a rectangle never reaches the
//! canvas out of bounds.

use vstd::prelude::*;

verus! {

/// A position in terminal cell coordinates.
#[derive(Clone, Copy, Debug, PartialEq, Eq, Structural)]
pub struct U16Pos {
    pub x: u16,
    pub y: u16,
}

/// A rectangle in abstract integer coordinates, before layout.
///
/// Half open on both axes: the covered columns are `min_x <= x < max_x`
/// and the covered rows are `min_y <= y < max_y`.
#[derive(Clone, Copy, Debug, PartialEq, Eq, Structural)]
pub struct IRect {
    pub min_x: i32,
    pub min_y: i32,
    pub max_x: i32,
    pub max_y: i32,
}

/// A rectangle in terminal cell coordinates, after layout.
///
/// Half open on both axes, like [`IRect`].
#[derive(Clone, Copy, Debug, PartialEq, Eq, Structural)]
pub struct U16Rect {
    pub min_x: u16,
    pub min_y: u16,
    pub max_x: u16,
    pub max_y: u16,
}

impl IRect {
    /// Well-formed: the maximum corner is not above or left of the minimum.
    pub open spec fn wf(self) -> bool {
        self.min_x <= self.max_x && self.min_y <= self.max_y
    }

    /// A rectangle from its minimum and maximum corners.
    pub fn new(min_x: i32, min_y: i32, max_x: i32, max_y: i32) -> (r: IRect)
        requires
            min_x <= max_x,
            min_y <= max_y,
        ensures
            r == (IRect { min_x, min_y, max_x, max_y }),
            r.wf(),
    {
        IRect { min_x, min_y, max_x, max_y }
    }
}

impl U16Rect {
    /// Well-formed: the maximum corner is not above or left of the minimum.
    pub open spec fn wf(self) -> bool {
        self.min_x <= self.max_x && self.min_y <= self.max_y
    }

    /// The number of columns covered.
    pub open spec fn spec_width(self) -> int {
        self.max_x - self.min_x
    }

    /// The number of rows covered.
    pub open spec fn spec_height(self) -> int {
        self.max_y - self.min_y
    }

    /// The largest rectangle covered by both `self` and `other`, as a
    /// spec value: largest minimum corner, smallest maximum corner, the
    /// maximum clamped so the result stays well-formed.
    pub open spec fn spec_intersect(self, other: U16Rect) -> U16Rect {
        let min_x = vstd::math::max(self.min_x as int, other.min_x as int);
        let min_y = vstd::math::max(self.min_y as int, other.min_y as int);
        let max_x = vstd::math::max(vstd::math::min(self.max_x as int, other.max_x as int), min_x);
        let max_y = vstd::math::max(vstd::math::min(self.max_y as int, other.max_y as int), min_y);
        U16Rect { min_x: min_x as u16, min_y: min_y as u16, max_x: max_x as u16, max_y: max_y as u16 }
    }

    /// `self` covers every cell that `inner` covers.
    ///
    /// An empty `inner` is contained in everything: it covers no cell.
    pub open spec fn spec_contains(self, inner: U16Rect) -> bool {
        ||| inner.min_x >= inner.max_x
        ||| inner.min_y >= inner.max_y
        ||| (self.min_x <= inner.min_x && inner.max_x <= self.max_x && self.min_y <= inner.min_y
            && inner.max_y <= self.max_y)
    }

    /// A rectangle from its minimum and maximum corners.
    pub fn new(min_x: u16, min_y: u16, max_x: u16, max_y: u16) -> (r: U16Rect)
        requires
            min_x <= max_x,
            min_y <= max_y,
        ensures
            r == (U16Rect { min_x, min_y, max_x, max_y }),
            r.wf(),
    {
        U16Rect { min_x, min_y, max_x, max_y }
    }

    /// The minimum corner.
    pub fn min(&self) -> (r: U16Pos)
        ensures
            r.x == self.min_x,
            r.y == self.min_y,
    {
        U16Pos { x: self.min_x, y: self.min_y }
    }

    /// The number of columns covered.
    pub fn width(&self) -> (r: u16)
        requires
            self.wf(),
        ensures
            r == self.spec_width(),
    {
        self.max_x - self.min_x
    }

    /// The number of rows covered.
    pub fn height(&self) -> (r: u16)
        requires
            self.wf(),
        ensures
            r == self.spec_height(),
    {
        self.max_y - self.min_y
    }

    /// Executable containment test, equal to [`U16Rect::spec_contains`].
    pub fn contains(&self, inner: &U16Rect) -> (r: bool)
        ensures
            r == self.spec_contains(*inner),
    {
        (inner.min_x >= inner.max_x || inner.min_y >= inner.max_y) || (self.min_x <= inner.min_x
            && inner.max_x <= self.max_x && self.min_y <= inner.min_y && inner.max_y <= self.max_y)
    }

    /// The largest rectangle covered by both `self` and `other`.
    ///
    /// When the two do not overlap the result is empty (zero width or
    /// height), clamped to the corner of `self` nearest to `other`.
    pub fn intersect(&self, other: &U16Rect) -> (r: U16Rect)
        requires
            self.wf(),
            other.wf(),
        ensures
            r == self.spec_intersect(*other),
            r.wf(),
            self.spec_contains(r),
            other.spec_contains(r),
    {
        let min_x = if self.min_x >= other.min_x {
            self.min_x
        } else {
            other.min_x
        };
        let min_y = if self.min_y >= other.min_y {
            self.min_y
        } else {
            other.min_y
        };
        let max_x0 = if self.max_x <= other.max_x {
            self.max_x
        } else {
            other.max_x
        };
        let max_y0 = if self.max_y <= other.max_y {
            self.max_y
        } else {
            other.max_y
        };
        let max_x = if max_x0 >= min_x {
            max_x0
        } else {
            min_x
        };
        let max_y = if max_y0 >= min_y {
            max_y0
        } else {
            min_y
        };
        U16Rect { min_x, min_y, max_x, max_y }
    }
}

/// Clamp an abstract coordinate into terminal cell range, as a spec
/// value.
pub open spec fn spec_clamp_to_u16(v: int) -> u16 {
    if v < 0 {
        0u16
    } else if v > u16::MAX {
        u16::MAX
    } else {
        v as u16
    }
}

/// Truncation of a pre-layout rectangle into terminal cell coordinates,
/// as a spec value.
pub open spec fn spec_rect_as_u16(shape: IRect) -> U16Rect {
    U16Rect {
        min_x: spec_clamp_to_u16(shape.min_x as int),
        min_y: spec_clamp_to_u16(shape.min_y as int),
        max_x: spec_clamp_to_u16(shape.max_x as int),
        max_y: spec_clamp_to_u16(shape.max_y as int),
    }
}

/// Clamp an abstract coordinate into terminal cell range.
pub fn clamp_to_u16(v: i32) -> (r: u16)
    ensures
        r == spec_clamp_to_u16(v as int),
{
    if v < 0 {
        0
    } else if v > u16::MAX as i32 {
        u16::MAX
    } else {
        v as u16
    }
}

/// Truncate a pre-layout rectangle into terminal cell coordinates,
/// clamping each coordinate into the `u16` range.
pub fn rect_as_u16(shape: &IRect) -> (r: U16Rect)
    requires
        shape.wf(),
    ensures
        r == spec_rect_as_u16(*shape),
        r.wf(),
{
    U16Rect {
        min_x: clamp_to_u16(shape.min_x),
        min_y: clamp_to_u16(shape.min_y),
        max_x: clamp_to_u16(shape.max_x),
        max_y: clamp_to_u16(shape.max_y),
    }
}

} // verus!
