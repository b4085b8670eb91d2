use vstd::prelude::*;

verus! {

/// A point of the integer plane.
#[derive(Clone, Copy, Debug, PartialEq, Eq, Structural)]
pub struct IVec2 {
    pub x: i32,
    pub y: i32,
}

impl IVec2 {
    pub fn new(x: i32, y: i32) -> (r: IVec2)
        ensures
            r == (IVec2 { x, y }),
    {
        IVec2 { x, y }
    }
}

/// A point of the integer grid, or the extent of a box on it.
#[derive(Clone, Copy, Debug, PartialEq, Eq, Structural)]
pub struct IVec3 {
    pub x: i32,
    pub y: i32,
    pub z: i32,
}

impl IVec3 {
    pub fn new(x: i32, y: i32, z: i32) -> (r: IVec3)
        ensures
            r == (IVec3 { x, y, z }),
    {
        IVec3 { x, y, z }
    }

    /// The vector whose three components all equal `v`.
    pub open spec fn spec_splat(v: i32) -> IVec3 {
        IVec3 { x: v, y: v, z: v }
    }

    #[verifier::when_used_as_spec(spec_splat)]
    pub fn splat(v: i32) -> (r: IVec3)
        ensures
            r == Self::spec_splat(v),
    {
        IVec3 { x: v, y: v, z: v }
    }

    /// The componentwise minimum of two vectors.
    pub open spec fn spec_min(self, rhs: IVec3) -> IVec3 {
        IVec3 {
            x: if self.x <= rhs.x { self.x } else { rhs.x },
            y: if self.y <= rhs.y { self.y } else { rhs.y },
            z: if self.z <= rhs.z { self.z } else { rhs.z },
        }
    }

    #[verifier::when_used_as_spec(spec_min)]
    pub fn min(self, rhs: IVec3) -> (r: IVec3)
        ensures
            r == self.spec_min(rhs),
    {
        IVec3 {
            x: if self.x <= rhs.x { self.x } else { rhs.x },
            y: if self.y <= rhs.y { self.y } else { rhs.y },
            z: if self.z <= rhs.z { self.z } else { rhs.z },
        }
    }

    /// The componentwise maximum of two vectors.
    pub open spec fn spec_max(self, rhs: IVec3) -> IVec3 {
        IVec3 {
            x: if self.x >= rhs.x { self.x } else { rhs.x },
            y: if self.y >= rhs.y { self.y } else { rhs.y },
            z: if self.z >= rhs.z { self.z } else { rhs.z },
        }
    }

    #[verifier::when_used_as_spec(spec_max)]
    pub fn max(self, rhs: IVec3) -> (r: IVec3)
        ensures
            r == self.spec_max(rhs),
    {
        IVec3 {
            x: if self.x >= rhs.x { self.x } else { rhs.x },
            y: if self.y >= rhs.y { self.y } else { rhs.y },
            z: if self.z >= rhs.z { self.z } else { rhs.z },
        }
    }
}

/// Whether two boxes, each given by its lowest and its highest corner, share
/// no cell of the grid: along some axis one of them ends where the other
/// begins, or before.
pub open spec fn boxes_apart(a_min: IVec3, a_max: IVec3, b_min: IVec3, b_max: IVec3) -> bool {
    ||| a_max.x <= b_min.x
    ||| b_max.x <= a_min.x
    ||| a_max.y <= b_min.y
    ||| b_max.y <= a_min.y
    ||| a_max.z <= b_min.z
    ||| b_max.z <= a_min.z
}

/// Whether the box from `min` to `max` lies in the box from `lower` to
/// `upper`.
pub open spec fn box_within(min: IVec3, max: IVec3, lower: IVec3, upper: IVec3) -> bool {
    &&& lower.x <= min.x && max.x <= upper.x
    &&& lower.y <= min.y && max.y <= upper.y
    &&& lower.z <= min.z && max.z <= upper.z
}

/// An axis-aligned rectangle of the integer plane, closed below and open
/// above; it is empty when `min` is not strictly below `max` on both axes.
#[derive(Clone, Copy, Debug, PartialEq, Eq, Structural)]
pub struct IRect {
    pub min: IVec2,
    pub max: IVec2,
}

impl IRect {
    /// The rectangle with the two given points as opposite corners, in
    /// whatever order they come.
    pub open spec fn spec_new(x0: i32, y0: i32, x1: i32, y1: i32) -> IRect {
        IRect {
            min: IVec2 { x: if x0 <= x1 { x0 } else { x1 }, y: if y0 <= y1 { y0 } else { y1 } },
            max: IVec2 { x: if x0 <= x1 { x1 } else { x0 }, y: if y0 <= y1 { y1 } else { y0 } },
        }
    }

    #[verifier::when_used_as_spec(spec_new)]
    pub fn new(x0: i32, y0: i32, x1: i32, y1: i32) -> (r: IRect)
        ensures
            r == Self::spec_new(x0, y0, x1, y1),
    {
        IRect {
            min: IVec2 { x: if x0 <= x1 { x0 } else { x1 }, y: if y0 <= y1 { y0 } else { y1 } },
            max: IVec2 { x: if x0 <= x1 { x1 } else { x0 }, y: if y0 <= y1 { y1 } else { y0 } },
        }
    }

    /// Whether the rectangle holds no point.
    pub open spec fn spec_is_empty(&self) -> bool {
        self.min.x >= self.max.x || self.min.y >= self.max.y
    }

    #[verifier::when_used_as_spec(spec_is_empty)]
    pub fn is_empty(&self) -> (r: bool)
        ensures
            r == self.spec_is_empty(),
    {
        self.min.x >= self.max.x || self.min.y >= self.max.y
    }

    /// The common part of two rectangles. Where they are apart on an axis,
    /// the result is collapsed onto its upper bound on that axis.
    pub open spec fn spec_intersect(&self, other: IRect) -> IRect {
        let hi_x = if self.max.x <= other.max.x { self.max.x } else { other.max.x };
        let hi_y = if self.max.y <= other.max.y { self.max.y } else { other.max.y };
        let lo_x = if self.min.x >= other.min.x { self.min.x } else { other.min.x };
        let lo_y = if self.min.y >= other.min.y { self.min.y } else { other.min.y };
        IRect {
            min: IVec2 { x: if lo_x <= hi_x { lo_x } else { hi_x }, y: if lo_y <= hi_y { lo_y } else { hi_y } },
            max: IVec2 { x: hi_x, y: hi_y },
        }
    }

    #[verifier::when_used_as_spec(spec_intersect)]
    pub fn intersect(&self, other: IRect) -> (r: IRect)
        ensures
            r == self.spec_intersect(other),
    {
        let hi_x = if self.max.x <= other.max.x { self.max.x } else { other.max.x };
        let hi_y = if self.max.y <= other.max.y { self.max.y } else { other.max.y };
        let lo_x = if self.min.x >= other.min.x { self.min.x } else { other.min.x };
        let lo_y = if self.min.y >= other.min.y { self.min.y } else { other.min.y };
        IRect {
            min: IVec2 { x: if lo_x <= hi_x { lo_x } else { hi_x }, y: if lo_y <= hi_y { lo_y } else { hi_y } },
            max: IVec2 { x: hi_x, y: hi_y },
        }
    }

    /// Whether two rectangles share a region of positive area.
    pub open spec fn overlaps(&self, other: IRect) -> bool {
        let lo_x = if self.min.x >= other.min.x { self.min.x } else { other.min.x };
        let lo_y = if self.min.y >= other.min.y { self.min.y } else { other.min.y };
        let hi_x = if self.max.x <= other.max.x { self.max.x } else { other.max.x };
        let hi_y = if self.max.y <= other.max.y { self.max.y } else { other.max.y };
        lo_x < hi_x && lo_y < hi_y
    }
}

} // verus!
