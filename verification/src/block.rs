use vstd::prelude::*;
use crate::vector::{IRect, IVec3};

verus! {

/// One of the three orthogonal axes of the play volume.
#[derive(Clone, Copy, Debug, PartialEq, Eq, Structural)]
pub enum Axis {
    X,
    Y,
    Z,
}

impl Axis {
    /// The three axes, in right-handed order.
    pub const ALL: [Axis; 3] = [Axis::X, Axis::Y, Axis::Z];

    /// The two axes orthogonal to X.
    pub const NOX: [Axis; 2] = [Axis::Y, Axis::Z];

    /// The two axes orthogonal to Y.
    pub const NOY: [Axis; 2] = [Axis::Z, Axis::X];

    /// The two axes orthogonal to Z.
    pub const NOZ: [Axis; 2] = [Axis::X, Axis::Y];

    /// The successor of this axis in the right-handed cycle X, Y, Z, X.
    pub open spec fn spec_next_rh(&self) -> Axis {
        match self {
            Axis::X => Axis::Y,
            Axis::Y => Axis::Z,
            Axis::Z => Axis::X,
        }
    }

    #[verifier::when_used_as_spec(spec_next_rh)]
    pub fn next_rh(&self) -> (r: Axis)
        ensures
            r == self.spec_next_rh(),
    {
        match self {
            Axis::X => Axis::Y,
            Axis::Y => Axis::Z,
            Axis::Z => Axis::X,
        }
    }

    /// The sign of the cross product of the two axes' unit vectors, taken
    /// along the third axis: 0 for an axis with itself, 1 where `other`
    /// follows `self` in the right-handed cycle, -1 where it precedes it.
    pub open spec fn spec_cross(&self, other: &Axis) -> i32 {
        if *self == *other {
            0i32
        } else if *other == self.spec_next_rh() {
            1i32
        } else {
            -1i32
        }
    }

    #[verifier::when_used_as_spec(spec_cross)]
    pub fn cross(&self, other: &Axis) -> (r: i32)
        ensures
            r == self.spec_cross(other),
    {
        match (self, other) {
            (Axis::X, Axis::X) => 0,
            (Axis::Y, Axis::Y) => 0,
            (Axis::Z, Axis::Z) => 0,
            (Axis::X, Axis::Y) => 1,
            (Axis::Y, Axis::Z) => 1,
            (Axis::Z, Axis::X) => 1,
            _ => -1,
        }
    }

    /// The axis that differs from both arguments, where they differ from
    /// each other.
    pub fn remaining(&self, other: &Axis) -> (r: Option<Axis>)
        ensures
            r is None <==> *self == *other,
            r matches Some(a) ==> a != *self && a != *other,
    {
        match (self, other) {
            (Axis::X, Axis::Y) | (Axis::Y, Axis::X) => Some(Axis::Z),
            (Axis::Y, Axis::Z) | (Axis::Z, Axis::Y) => Some(Axis::X),
            (Axis::Z, Axis::X) | (Axis::X, Axis::Z) => Some(Axis::Y),
            _ => None,
        }
    }

    /// The two axes orthogonal to this one, in right-handed order.
    pub fn remaining_two(&self) -> (r: [Axis; 2])
        ensures
            r[0] == self.spec_next_rh(),
            r[1] == self.spec_next_rh().spec_next_rh(),
    {
        match self {
            Axis::X => Axis::NOX,
            Axis::Y => Axis::NOY,
            Axis::Z => Axis::NOZ,
        }
    }

    /// The vector with 1 along this axis and 0 along the two others.
    pub open spec fn spec_unit_vector(&self) -> IVec3 {
        match self {
            Axis::X => IVec3 { x: 1, y: 0, z: 0 },
            Axis::Y => IVec3 { x: 0, y: 1, z: 0 },
            Axis::Z => IVec3 { x: 0, y: 0, z: 1 },
        }
    }

    #[verifier::when_used_as_spec(spec_unit_vector)]
    pub fn unit_vector(&self) -> (r: IVec3)
        ensures
            r == self.spec_unit_vector(),
    {
        match self {
            Axis::X => IVec3 { x: 1, y: 0, z: 0 },
            Axis::Y => IVec3 { x: 0, y: 1, z: 0 },
            Axis::Z => IVec3 { x: 0, y: 0, z: 1 },
        }
    }

    /// The component of `v` along this axis.
    pub open spec fn spec_ivec3_component(&self, v: IVec3) -> i32 {
        match self {
            Axis::X => v.x,
            Axis::Y => v.y,
            Axis::Z => v.z,
        }
    }

    #[verifier::when_used_as_spec(spec_ivec3_component)]
    pub fn ivec3_component(&self, v: IVec3) -> (r: i32)
        ensures
            r == self.spec_ivec3_component(v),
    {
        match self {
            Axis::X => v.x,
            Axis::Y => v.y,
            Axis::Z => v.z,
        }
    }

    /// `v` with its component along this axis replaced by `value`.
    pub open spec fn spec_with_component(&self, v: IVec3, value: i32) -> IVec3 {
        match self {
            Axis::X => IVec3 { x: value, ..v },
            Axis::Y => IVec3 { y: value, ..v },
            Axis::Z => IVec3 { z: value, ..v },
        }
    }

    #[verifier::when_used_as_spec(spec_with_component)]
    pub fn with_component(&self, v: IVec3, value: i32) -> (r: IVec3)
        ensures
            r == self.spec_with_component(v, value),
    {
        match self {
            Axis::X => IVec3 { x: value, y: v.y, z: v.z },
            Axis::Y => IVec3 { x: v.x, y: value, z: v.z },
            Axis::Z => IVec3 { x: v.x, y: v.y, z: value },
        }
    }
}

/// One of the six directions in which a block can slide: an axis and a
/// polarity along it.
#[derive(Clone, Copy, Debug, PartialEq, Eq, Structural)]
pub struct Direction {
    pub axis: Axis,
    pub positive: bool,
}

impl Direction {
    pub fn new(axis: Axis, positive: bool) -> (r: Direction)
        ensures
            r == (Direction { axis, positive }),
    {
        Direction { axis, positive }
    }

    pub fn xp() -> (r: Direction)
        ensures
            r == (Direction { axis: Axis::X, positive: true }),
    {
        Direction { axis: Axis::X, positive: true }
    }

    pub fn xn() -> (r: Direction)
        ensures
            r == (Direction { axis: Axis::X, positive: false }),
    {
        Direction { axis: Axis::X, positive: false }
    }

    pub fn yp() -> (r: Direction)
        ensures
            r == (Direction { axis: Axis::Y, positive: true }),
    {
        Direction { axis: Axis::Y, positive: true }
    }

    pub fn yn() -> (r: Direction)
        ensures
            r == (Direction { axis: Axis::Y, positive: false }),
    {
        Direction { axis: Axis::Y, positive: false }
    }

    pub fn zp() -> (r: Direction)
        ensures
            r == (Direction { axis: Axis::Z, positive: true }),
    {
        Direction { axis: Axis::Z, positive: true }
    }

    pub fn zn() -> (r: Direction)
        ensures
            r == (Direction { axis: Axis::Z, positive: false }),
    {
        Direction { axis: Axis::Z, positive: false }
    }

    /// 1 for a positive direction, -1 for a negative one.
    pub open spec fn spec_sign(&self) -> i32 {
        if self.positive {
            1i32
        } else {
            -1i32
        }
    }

    #[verifier::when_used_as_spec(spec_sign)]
    pub fn sign(&self) -> (r: i32)
        ensures
            r == self.spec_sign(),
    {
        if self.positive {
            1
        } else {
            -1
        }
    }

    /// The unit vector of the axis, negated for a negative direction.
    pub open spec fn spec_unit_vector(&self) -> IVec3 {
        let s = self.spec_sign();
        match self.axis {
            Axis::X => IVec3 { x: s, y: 0, z: 0 },
            Axis::Y => IVec3 { x: 0, y: s, z: 0 },
            Axis::Z => IVec3 { x: 0, y: 0, z: s },
        }
    }

    #[verifier::when_used_as_spec(spec_unit_vector)]
    pub fn unit_vector(&self) -> (r: IVec3)
        ensures
            r == self.spec_unit_vector(),
    {
        let s = self.sign();
        self.axis.with_component(IVec3 { x: 0, y: 0, z: 0 }, s)
    }
}

/// Whether two rectangles share a region of positive area.
pub fn check_overlap_rectangles(rect1: IRect, rect2: IRect) -> (r: bool)
    ensures
        r == rect1.overlaps(rect2),
{
    !rect1.intersect(rect2).is_empty()
}

/// Whether two blocks share a lane along the axis of `direction`: whether
/// their shadows on the plane orthogonal to that axis overlap with positive
/// area.
pub fn check_overlap_in_direction(b1: &Block, b2: &Block, direction: &Direction) -> (r: bool)
    ensures
        r == b1.shares_lane(*b2, direction.axis),
{
    let (rect1, rect2) = match direction.axis {
        Axis::X => (
            IRect::new(b1.min.y, b1.min.z, b1.max.y, b1.max.z),
            IRect::new(b2.min.y, b2.min.z, b2.max.y, b2.max.z),
        ),
        Axis::Y => (
            IRect::new(b1.min.x, b1.min.z, b1.max.x, b1.max.z),
            IRect::new(b2.min.x, b2.min.z, b2.max.x, b2.max.z),
        ),
        Axis::Z => (
            IRect::new(b1.min.x, b1.min.y, b1.max.x, b1.max.y),
            IRect::new(b2.min.x, b2.min.y, b2.max.x, b2.max.y),
        ),
    };
    check_overlap_rectangles(rect1, rect2)
}

/// The three shapes in which a block is shown.
#[derive(Clone, Copy, Debug, PartialEq, Eq, Structural)]
pub enum BlockShape {
    Small,
    Wide,
    Long,
}

/// An axis-aligned box on the integer grid together with the direction in
/// which it slides.
#[derive(Clone, Copy, Debug, PartialEq, Eq, Structural)]
pub struct Block {
    pub direction: Direction,
    pub min: IVec3,
    pub max: IVec3,
}

impl Block {
    /// The lower bound of the block along `axis`.
    pub open spec fn lo(&self, axis: Axis) -> int {
        axis.spec_ivec3_component(self.min) as int
    }

    /// The upper bound of the block along `axis`.
    pub open spec fn hi(&self, axis: Axis) -> int {
        axis.spec_ivec3_component(self.max) as int
    }

    /// The length of the block along `axis`.
    pub open spec fn extent(&self, axis: Axis) -> int {
        self.hi(axis) - self.lo(axis)
    }

    /// A well-formed block is a unit cube or a unit cube doubled along one
    /// axis.
    pub open spec fn wf(&self) -> bool {
        let (x, y, z) = (self.extent(Axis::X), self.extent(Axis::Y), self.extent(Axis::Z));
        ||| (x == 1 && y == 1 && z == 1)
        ||| (x == 2 && y == 1 && z == 1)
        ||| (x == 1 && y == 2 && z == 1)
        ||| (x == 1 && y == 1 && z == 2)
    }

    /// Whether the block is well formed.
    pub fn is_valid(&self) -> (r: bool)
        ensures
            r == self.wf(),
    {
        let x: i64 = self.max.x as i64 - self.min.x as i64;
        let y: i64 = self.max.y as i64 - self.min.y as i64;
        let z: i64 = self.max.z as i64 - self.min.z as i64;
        (x == 1 && y == 1 && z == 1) || (x == 2 && y == 1 && z == 1) || (x == 1 && y == 2 && z
            == 1) || (x == 1 && y == 1 && z == 2)
    }

    /// Whether the block's extent along each axis is an `i32`.
    pub open spec fn size_in_range(&self) -> bool {
        &&& i32::MIN <= self.extent(Axis::X) <= i32::MAX
        &&& i32::MIN <= self.extent(Axis::Y) <= i32::MAX
        &&& i32::MIN <= self.extent(Axis::Z) <= i32::MAX
    }

    /// The extent of the block along each axis.
    pub fn get_isize(&self) -> (r: IVec3)
        requires
            self.size_in_range(),
        ensures
            r.x == self.extent(Axis::X),
            r.y == self.extent(Axis::Y),
            r.z == self.extent(Axis::Z),
    {
        IVec3 { x: self.max.x - self.min.x, y: self.max.y - self.min.y, z: self.max.z - self.min.z }
    }

    /// The axis along which the block is two units long, if it is a unit
    /// cube doubled along one axis.
    pub open spec fn elongation(&self) -> Option<Axis> {
        let (x, y, z) = (self.extent(Axis::X), self.extent(Axis::Y), self.extent(Axis::Z));
        if x == 2 && y == 1 && z == 1 {
            Some(Axis::X)
        } else if x == 1 && y == 2 && z == 1 {
            Some(Axis::Y)
        } else if x == 1 && y == 1 && z == 2 {
            Some(Axis::Z)
        } else {
            None
        }
    }

    /// The axis along which the block is doubled, if it is a doubled unit cube.
    pub fn get_elongation(&self) -> (r: Option<Axis>)
        ensures
            r == self.elongation(),
    {
        let x: i64 = self.max.x as i64 - self.min.x as i64;
        let y: i64 = self.max.y as i64 - self.min.y as i64;
        let z: i64 = self.max.z as i64 - self.min.z as i64;
        if x == 2 && y == 1 && z == 1 {
            Some(Axis::X)
        } else if x == 1 && y == 2 && z == 1 {
            Some(Axis::Y)
        } else if x == 1 && y == 1 && z == 2 {
            Some(Axis::Z)
        } else {
            None
        }
    }

    /// The shape of the block as it is shown: small for a unit cube, long
    /// for one doubled along its direction, wide for one doubled across it.
    pub open spec fn spec_shape(&self) -> BlockShape {
        match self.elongation() {
            None => BlockShape::Small,
            Some(axis) => if axis == self.direction.axis {
                BlockShape::Long
            } else {
                BlockShape::Wide
            },
        }
    }

    #[verifier::when_used_as_spec(spec_shape)]
    pub fn shape(&self) -> (r: BlockShape)
        ensures
            r == self.spec_shape(),
    {
        match self.get_elongation() {
            None => BlockShape::Small,
            Some(axis) => if axis == self.direction.axis {
                BlockShape::Long
            } else {
                BlockShape::Wide
            },
        }
    }

    /// The pair of the block's corners, lower corner first.
    pub fn extract_mm(self) -> (r: (IVec3, IVec3))
        ensures
            r == (self.min, self.max),
    {
        (self.min, self.max)
    }

    /// The interval that the block covers along `axis`, whichever of its two
    /// corners is the lower one there.
    pub open spec fn span(&self, axis: Axis) -> (int, int) {
        if self.lo(axis) <= self.hi(axis) {
            (self.lo(axis), self.hi(axis))
        } else {
            (self.hi(axis), self.lo(axis))
        }
    }

    /// Whether the two blocks' spans along `axis` share more than a point.
    pub open spec fn spans_overlap(&self, other: Block, axis: Axis) -> bool {
        let (a, b) = (self.span(axis), other.span(axis));
        (if a.0 >= b.0 { a.0 } else { b.0 }) < (if a.1 <= b.1 { a.1 } else { b.1 })
    }

    /// Whether the two blocks' spans overlap along both axes orthogonal to
    /// `axis`, so that one of them sliding along `axis` could meet the other.
    pub open spec fn shares_lane(&self, other: Block, axis: Axis) -> bool {
        &&& self.spans_overlap(other, axis.spec_next_rh())
        &&& self.spans_overlap(other, axis.spec_next_rh().spec_next_rh())
    }

    /// Twice the coordinate of the block's center along `axis`.
    pub open spec fn center2(&self, axis: Axis) -> int {
        self.lo(axis) + self.hi(axis)
    }

    /// Twice the distance from this block's center to that of `b`,
    /// measured along this block's direction.
    pub open spec fn ahead2(&self, b: Block) -> int {
        let d = b.center2(self.direction.axis) - self.center2(self.direction.axis);
        if self.direction.positive {
            d
        } else {
            -d
        }
    }

    /// Twice the distance between the two blocks' centers along `axis`.
    pub open spec fn offset2(&self, b: Block, axis: Axis) -> int {
        let d = b.center2(axis) - self.center2(axis);
        if d >= 0 {
            d
        } else {
            -d
        }
    }

    /// Whether `b` stands in the way of this block: it is another block,
    /// its center lies at least one unit ahead along this block's direction,
    /// and less than one unit aside along each of the two other axes.
    pub open spec fn spec_possible_collision(&self, b: &Block) -> bool {
        let axis = self.direction.axis;
        &&& *b != *self
        &&& self.ahead2(*b) >= 2
        &&& self.offset2(*b, axis.spec_next_rh()) < 2
        &&& self.offset2(*b, axis.spec_next_rh().spec_next_rh()) < 2
    }

    fn center2_along(&self, axis: Axis) -> (r: i64)
        ensures
            r == self.center2(axis),
    {
        axis.ivec3_component(self.min) as i64 + axis.ivec3_component(self.max) as i64
    }

    fn ahead2_of(&self, b: &Block) -> (r: i64)
        ensures
            r == self.ahead2(*b),
            -0x2_0000_0000 <= r <= 0x2_0000_0000,
    {
        let d: i64 = b.center2_along(self.direction.axis) - self.center2_along(
            self.direction.axis,
        );
        if self.direction.positive {
            d
        } else {
            -d
        }
    }

    fn offset2_along(&self, b: &Block, axis: Axis) -> (r: i64)
        ensures
            r == self.offset2(*b, axis),
    {
        let d: i64 = b.center2_along(axis) - self.center2_along(axis);
        if d >= 0 {
            d
        } else {
            -d
        }
    }

    #[verifier::when_used_as_spec(spec_possible_collision)]
    pub fn possible_collision(&self, b: &Block) -> (r: bool)
        ensures
            r == self.spec_possible_collision(b),
            *b == *self ==> !r,
            self.ahead2(*b) < 2 ==> !r,
    {
        let not_self = *b != *self;
        let ahead = self.ahead2_of(b) >= 2;
        let others = self.direction.axis.remaining_two();
        let in_the_way = self.offset2_along(b, others[0]) < 2 && self.offset2_along(b, others[1])
            < 2;
        not_self && ahead && in_the_way
    }

    /// The whole number of units, rounded towards zero, by which the center
    /// of `b` lies ahead of this block's center.
    pub open spec fn forward_distance(&self, b: Block) -> int {
        let a = self.ahead2(b);
        if a >= 0 {
            a / 2
        } else {
            -((-a) / 2)
        }
    }

    fn forward_distance_to(&self, b: &Block) -> (r: i64)
        ensures
            r == self.forward_distance(*b),
    {
        let a: i64 = self.ahead2_of(b);
        if a >= 0 {
            a / 2
        } else {
            -((-a) / 2)
        }
    }

    /// The blocks of `all_blocks` that stand in the way of this one, in the
    /// order in which they come.
    pub fn get_blocks_in_front(&self, all_blocks: &[Block]) -> (r: Vec<Block>)
        ensures
            r@ == all_blocks@.filter(|b: Block| self.spec_possible_collision(&b)),
    {
        let mut res: Vec<Block> = Vec::new();
        let mut i: usize = 0;
        let ghost pred = |b: Block| self.spec_possible_collision(&b);
        proof {
            reveal(Seq::filter);
            assert(all_blocks@.take(0) =~= Seq::<Block>::empty());
        }
        while i < all_blocks.len()
            invariant
                i <= all_blocks.len(),
                pred == |b: Block| self.spec_possible_collision(&b),
                res@ == all_blocks@.take(i as int).filter(pred),
            decreases all_blocks.len() - i,
        {
            proof {
                assert(all_blocks@.take(i + 1) =~= all_blocks@.take(i as int).push(
                    all_blocks@[i as int],
                ));
                all_blocks@.take(i as int).lemma_filter_push(all_blocks@[i as int], pred);
            }
            if self.possible_collision(&all_blocks[i]) {
                res.push(all_blocks[i]);
            }
            i += 1;
        }
        proof {
            assert(all_blocks@.take(i as int) =~= all_blocks@);
        }
        res
    }

    /// Whether `all[i]` is the first of the blocks in the way of this one
    /// that is nearest to it.
    pub open spec fn is_nearest_in_front(&self, all: Seq<Block>, i: int) -> bool {
        &&& 0 <= i < all.len()
        &&& self.spec_possible_collision(&all[i])
        &&& forall|j: int|
            0 <= j < all.len() && self.spec_possible_collision(&#[trigger] all[j])
                ==> self.forward_distance(all[i]) <= self.forward_distance(all[j])
        &&& forall|j: int|
            0 <= j < i && self.spec_possible_collision(&#[trigger] all[j])
                ==> self.forward_distance(all[i]) < self.forward_distance(all[j])
    }

    /// The block in the way of this one whose center is the fewest whole
    /// units ahead; of several such, the one that comes first.
    pub fn get_nearest_block_in_front(&self, all_blocks: &[Block]) -> (r: Option<Block>)
        ensures
            r is None <==> forall|j: int|
                0 <= j < all_blocks@.len() ==> !self.spec_possible_collision(
                    &#[trigger] all_blocks@[j],
                ),
            r matches Some(b) ==> exists|i: int|
                self.is_nearest_in_front(all_blocks@, i) && #[trigger] all_blocks@[i] == b,
    {
        let mut best: Option<Block> = None;
        let mut best_key: i64 = 0;
        let ghost mut best_i: int = 0;
        let mut i: usize = 0;
        while i < all_blocks.len()
            invariant
                i <= all_blocks.len(),
                best is None ==> forall|j: int|
                    0 <= j < i ==> !self.spec_possible_collision(&#[trigger] all_blocks@[j]),
                best matches Some(b) ==> {
                    &&& self.is_nearest_in_front(all_blocks@.take(i as int), best_i)
                    &&& all_blocks@[best_i] == b
                    &&& best_key == self.forward_distance(b)
                },
            decreases all_blocks.len() - i,
        {
            let ghost prev = all_blocks@.take(i as int);
            let ghost next = all_blocks@.take(i as int + 1);
            proof {
                assert(forall|j: int| 0 <= j < i ==> prev[j] == next[j]);
                assert(next[i as int] == all_blocks@[i as int]);
            }
            let b = all_blocks[i];
            if self.possible_collision(&b) {
                let key = self.forward_distance_to(&b);
                match best {
                    None => {
                        best = Some(b);
                        best_key = key;
                        proof {
                            best_i = i as int;
                        }
                    },
                    Some(_) => {
                        if key < best_key {
                            best = Some(b);
                            best_key = key;
                            proof {
                                best_i = i as int;
                            }
                        }
                    },
                }
            }
            i += 1;
            proof {
                if best is Some {
                    assert(self.is_nearest_in_front(next, best_i));
                }
            }
        }
        proof {
            assert(all_blocks@.take(i as int) =~= all_blocks@);
        }
        best
    }

    /// The length that the block keeps along its direction's axis when it
    /// moves: 2 where it is doubled along that axis, else 1.
    pub open spec fn travel_length(&self) -> int {
        if self.elongation() == Some(self.direction.axis) {
            2
        } else {
            1
        }
    }

    /// Whether `obstacle` lies wholly on the side of this block towards
    /// which it slides: beyond its upper face for a positive direction,
    /// beyond its lower face for a negative one.
    pub open spec fn faces(&self, obstacle: Block) -> bool {
        let axis = self.direction.axis;
        if self.direction.positive {
            self.hi(axis) <= obstacle.lo(axis)
        } else {
            self.lo(axis) >= obstacle.hi(axis)
        }
    }

    /// The lower bound, along its direction's axis, of this block once it
    /// has slid up to `obstacle`.
    pub open spec fn moved_lo(&self, obstacle: Block) -> int {
        let axis = self.direction.axis;
        if self.direction.positive {
            obstacle.lo(axis) - self.travel_length()
        } else {
            obstacle.hi(axis)
        }
    }

    /// The upper bound, along its direction's axis, of this block once it
    /// has slid up to `obstacle`.
    pub open spec fn moved_hi(&self, obstacle: Block) -> int {
        let axis = self.direction.axis;
        if self.direction.positive {
            obstacle.lo(axis)
        } else {
            obstacle.hi(axis) + self.travel_length()
        }
    }

    /// Whether this block can slide up to `obstacle`: they share a lane
    /// along its direction and the obstacle faces it.
    pub open spec fn can_move_to(&self, obstacle: Block) -> bool {
        self.shares_lane(obstacle, self.direction.axis) && self.faces(obstacle)
    }

    /// Whether the place where this block comes to rest against `obstacle`
    /// has `i32` coordinates.
    pub open spec fn move_in_range(&self, obstacle: Block) -> bool {
        self.can_move_to(obstacle) ==> i32::MIN <= self.moved_lo(obstacle) && self.moved_hi(
            obstacle,
        ) <= i32::MAX
    }

    /// Whether `move_block` can be asked to slide this block up to
    /// `obstacle`: `move_in_range`, decided at run time.
    pub fn move_fits(&self, obstacle: &Block) -> (r: bool)
        ensures
            r == self.move_in_range(*obstacle),
    {
        if check_overlap_in_direction(self, obstacle, &self.direction) {
            let length: i64 = if self.get_elongation() == Some(self.direction.axis) {
                2
            } else {
                1
            };
            let axis = self.direction.axis;
            let self_lo = axis.ivec3_component(self.min);
            let self_hi = axis.ivec3_component(self.max);
            let other_lo = axis.ivec3_component(obstacle.min);
            let other_hi = axis.ivec3_component(obstacle.max);
            if self.direction.positive {
                self_hi > other_lo || other_lo as i64 - length >= i32::MIN as i64
            } else {
                self_lo < other_hi || other_hi as i64 + length <= i32::MAX as i64
            }
        } else {
            true
        }
    }

    /// This block slid along its direction until it touches `obstacle`, or
    /// `None` where it cannot slide up to it.
    pub open spec fn spec_move_block(&self, obstacle: &Block) -> Option<Block> {
        let axis = self.direction.axis;
        if self.can_move_to(*obstacle) {
            Some(
                Block {
                    direction: self.direction,
                    min: axis.spec_with_component(self.min, self.moved_lo(*obstacle) as i32),
                    max: axis.spec_with_component(self.max, self.moved_hi(*obstacle) as i32),
                },
            )
        } else {
            None
        }
    }

    /// Slides this block along its direction until it touches `static_block`.
    /// Gives `None` where the two share no lane along that direction or
    /// `static_block` does not lie wholly ahead.
    #[verifier::when_used_as_spec(spec_move_block)]
    pub fn move_block(&self, static_block: &Block) -> (r: Option<Block>)
        requires
            self.move_in_range(*static_block),
        ensures
            r == self.spec_move_block(static_block),
            !self.shares_lane(*static_block, self.direction.axis) ==> r is None,
    {
        if check_overlap_in_direction(self, static_block, &self.direction) {
            let length: i32 = if self.get_elongation() == Some(self.direction.axis) {
                2
            } else {
                1
            };
            let axis = self.direction.axis;
            let self_lo = axis.ivec3_component(self.min);
            let self_hi = axis.ivec3_component(self.max);
            let other_lo = axis.ivec3_component(static_block.min);
            let other_hi = axis.ivec3_component(static_block.max);
            if self.direction.positive {
                if self_hi <= other_lo {
                    Some(
                        Block {
                            direction: self.direction,
                            min: axis.with_component(self.min, other_lo - length),
                            max: axis.with_component(self.max, other_lo),
                        },
                    )
                } else {
                    None
                }
            } else {
                if self_lo >= other_hi {
                    Some(
                        Block {
                            direction: self.direction,
                            min: axis.with_component(self.min, other_hi),
                            max: axis.with_component(self.max, other_hi + length),
                        },
                    )
                } else {
                    None
                }
            }
        } else {
            None
        }
    }
}

/// A well-formed block that can slide up to an obstacle comes to rest
/// between its old place and the obstacle, so at `i32` coordinates. There
/// it touches the obstacle and is as long along each axis as it was.
pub proof fn lemma_well_formed_block_moves_in_range(block: Block, obstacle: Block)
    requires
        block.wf(),
    ensures
        block.move_in_range(obstacle),
        block.can_move_to(obstacle) && block.direction.positive ==> block.lo(block.direction.axis)
            <= block.moved_lo(obstacle),
        block.can_move_to(obstacle) && !block.direction.positive ==> block.moved_hi(obstacle)
            <= block.hi(block.direction.axis),
        block.spec_move_block(&obstacle) matches Some(moved) ==> {
            &&& moved.wf()
            &&& moved.extent(Axis::X) == block.extent(Axis::X)
            &&& moved.extent(Axis::Y) == block.extent(Axis::Y)
            &&& moved.extent(Axis::Z) == block.extent(Axis::Z)
            &&& block.direction.positive ==> moved.hi(block.direction.axis) == obstacle.lo(
                block.direction.axis,
            )
            &&& !block.direction.positive ==> moved.lo(block.direction.axis) == obstacle.hi(
                block.direction.axis,
            )
        },
{
}

} // verus!
