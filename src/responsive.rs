use vstd::prelude::*;
use crate::geometry::{Vec2, Vec3, Rect, UNIT, clamp_coord, clamp_to_coord, floor_div};

verus! {

/// A whole percentage counts this many thousandths of a percent.
pub const PERCENT_SCALE: i32 = 1000;

/// One coordinate of a layout: a fixed value, or a place within a range.
#[derive(Clone, Copy, Debug, PartialEq, Eq, Structural)]
pub enum ResponsiveValue {
    /// This coordinate, whatever the range.
    Absolute(i32),
    /// This many thousandths of a percent of the way from the range's start
    /// to its end (0 is the start, 100_000 the end).
    Percentage(i32),
}

/// A two-dimensional layout spec.
#[derive(Clone, Copy, Debug, PartialEq, Eq, Structural)]
pub struct ResponsiveVec2 {
    pub x: ResponsiveValue,
    pub y: ResponsiveValue,
}

/// A three-dimensional layout spec.
#[derive(Clone, Copy, Debug, PartialEq, Eq, Structural)]
pub struct ResponsiveVec3 {
    pub x: ResponsiveValue,
    pub y: ResponsiveValue,
    pub z: ResponsiveValue,
}

/// The layout an entity is placed by.
#[derive(Clone, Copy, Debug, PartialEq, Eq, Structural)]
pub struct ResponsivePosition {
    pub position: ResponsiveVec3,
}

/// `p` thousandths of a percent remapped linearly from `[0, 100%]` onto
/// `[min, max]`, rounded down.
pub open spec fn remap(p: int, min: int, max: int) -> int {
    min + p * (max - min) / (100 * PERCENT_SCALE)
}

impl ResponsiveValue {
    /// The coordinate this value stands for within `[min, max]`.
    pub open spec fn resolved(self, min: int, max: int) -> int {
        match self {
            ResponsiveValue::Absolute(v) => v as int,
            ResponsiveValue::Percentage(p) => clamp_coord(remap(p as int, min, max)),
        }
    }

    /// The coordinate this value stands for within `[min, max]`; a
    /// percentage outside `[0, 100%]` extrapolates, limited to the
    /// coordinate range.
    pub fn resolve(self, min: i64, max: i64) -> (r: i32)
        ensures
            r == self.resolved(min as int, max as int),
    {
        match self {
            ResponsiveValue::Absolute(v) => v,
            ResponsiveValue::Percentage(p) => {
                let span: i128 = (max as i128) - (min as i128);
                assert(-0x8000_0000 * 0x1_0000_0000_0000_0000 <= (p as int) * span <= 0x8000_0000 * 0x1_0000_0000_0000_0000)
                    by (nonlinear_arith)
                    requires -0x8000_0000 <= p <= 0x7fff_ffff,
                        -0x1_0000_0000_0000_0000 <= span <= 0x1_0000_0000_0000_0000;
                let q: i128 = floor_div((p as i128) * span, 100_000);
                assert(-0x8000_0000 * 0x1_0000_0000_0000_0000 <= q <= 0x8000_0000 * 0x1_0000_0000_0000_0000) by {
                    vstd::arithmetic::div_mod::lemma_div_is_ordered(
                        (p as int) * span, 0x8000_0000int * 0x1_0000_0000_0000_0000, 100_000);
                    vstd::arithmetic::div_mod::lemma_div_is_ordered(
                        -0x8000_0000int * 0x1_0000_0000_0000_0000, (p as int) * span, 100_000);
                }
                clamp_to_coord((min as i128) + q)
            },
        }
    }
}

impl ResponsiveVec2 {
    /// The point this spec stands for in `area`: x within the area's x-range,
    /// y within its y-range.
    pub open spec fn resolved(self, area: Rect) -> Vec2 {
        Vec2 {
            x: self.x.resolved(area.min_x as int, area.max_x as int) as i32,
            y: self.y.resolved(area.min_y as int, area.max_y as int) as i32,
        }
    }

    /// The point this spec stands for in `area`.
    pub fn resolve(&self, area: Rect) -> (r: Vec2)
        ensures
            r == self.resolved(area),
    {
        Vec2 { x: self.x.resolve(area.min_x, area.max_x), y: self.y.resolve(area.min_y, area.max_y) }
    }
}

impl ResponsiveVec3 {
    /// The point this spec stands for in `area`; depth is placed within `[0, 1]`.
    pub open spec fn resolved(self, area: Rect) -> Vec3 {
        Vec3 {
            x: self.x.resolved(area.min_x as int, area.max_x as int) as i32,
            y: self.y.resolved(area.min_y as int, area.max_y as int) as i32,
            z: self.z.resolved(0, UNIT as int) as i32,
        }
    }

    /// The point this spec stands for in `area`.
    pub fn resolve(&self, area: Rect) -> (r: Vec3)
        ensures
            r == self.resolved(area),
    {
        Vec3 {
            x: self.x.resolve(area.min_x, area.max_x),
            y: self.y.resolve(area.min_y, area.max_y),
            z: self.z.resolve(0, UNIT as i64),
        }
    }
}

impl ResponsivePosition {
    pub fn new(x: ResponsiveValue, y: ResponsiveValue, z: ResponsiveValue) -> (r: ResponsivePosition)
        ensures
            r.position == (ResponsiveVec3 { x, y, z }),
    {
        ResponsivePosition { position: ResponsiveVec3 { x, y, z } }
    }
}

/// A percentage of 0 resolves to the start of the range, one of 100 to its
/// end, and an absolute value to itself whatever the range.
pub proof fn lemma_resolve_endpoints(min: i32, max: i32, v: i32)
    ensures
        ResponsiveValue::Percentage(0).resolved(min as int, max as int) == min,
        ResponsiveValue::Percentage(100_000).resolved(min as int, max as int) == max,
        ResponsiveValue::Absolute(v).resolved(min as int, max as int) == v,
{
    let span = max - min;
    vstd::arithmetic::div_mod::lemma_div_multiples_vanish(span, 100_000);
}

/// A percentage within `[0, 100%]` resolves to a coordinate within the range.
pub proof fn lemma_resolve_within(min: i32, max: i32, p: i32)
    requires
        min <= max,
        0 <= p <= 100 * PERCENT_SCALE,
    ensures
        min <= ResponsiveValue::Percentage(p).resolved(min as int, max as int) <= max,
{
    let span = max - min;
    assert(0 <= p * span <= 100_000 * span) by (nonlinear_arith)
        requires 0 <= p <= 100_000, span >= 0;
    vstd::arithmetic::div_mod::lemma_div_is_ordered(p * span, 100_000 * span, 100_000);
    vstd::arithmetic::div_mod::lemma_div_multiples_vanish(span, 100_000);
    if p * span > 0 {
        vstd::arithmetic::div_mod::lemma_div_pos_is_pos(p * span, 100_000);
    }
}

} // verus!
