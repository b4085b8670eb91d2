use vstd::prelude::*;
use crate::block::{Axis, Block};
use crate::vector::IVec3;

verus! {

/// The componentwise minimum of the lower corners of `blocks`; without
/// blocks, the highest vector there is.
pub open spec fn lower_corner(blocks: Seq<Block>) -> IVec3
    decreases blocks.len(),
{
    if blocks.len() == 0 {
        IVec3::spec_splat(i32::MAX)
    } else {
        lower_corner(blocks.drop_last()).spec_min(blocks.last().min)
    }
}

/// The componentwise maximum of the upper corners of `blocks`; without
/// blocks, the lowest vector there is.
pub open spec fn upper_corner(blocks: Seq<Block>) -> IVec3
    decreases blocks.len(),
{
    if blocks.len() == 0 {
        IVec3::spec_splat(i32::MIN)
    } else {
        upper_corner(blocks.drop_last()).spec_max(blocks.last().max)
    }
}

/// The two corners bound every block from below and from above.
pub proof fn lemma_corners_bound(blocks: Seq<Block>, i: int)
    requires
        0 <= i < blocks.len(),
    ensures
        lower_corner(blocks).x <= blocks[i].min.x,
        lower_corner(blocks).y <= blocks[i].min.y,
        lower_corner(blocks).z <= blocks[i].min.z,
        upper_corner(blocks).x >= blocks[i].max.x,
        upper_corner(blocks).y >= blocks[i].max.y,
        upper_corner(blocks).z >= blocks[i].max.z,
    decreases blocks.len(),
{
    if i < blocks.len() - 1 {
        lemma_corners_bound(blocks.drop_last(), i);
    }
}

/// The corners of the smallest box that holds all of `blocks`.
pub fn bounds_of(blocks: &[Block]) -> (r: (IVec3, IVec3))
    ensures
        r == (lower_corner(blocks@), upper_corner(blocks@)),
        forall|i: int|
            0 <= i < blocks@.len() ==> r.0.x <= (#[trigger] blocks@[i]).min.x && r.0.y
                <= blocks@[i].min.y && r.0.z <= blocks@[i].min.z && r.1.x >= blocks@[i].max.x
                && r.1.y >= blocks@[i].max.y && r.1.z >= blocks@[i].max.z,
{
    let mut lower = IVec3::splat(i32::MAX);
    let mut upper = IVec3::splat(i32::MIN);
    let mut i: usize = 0;
    assert(blocks@.take(0) =~= Seq::<Block>::empty());
    while i < blocks.len()
        invariant
            i <= blocks.len(),
            lower == lower_corner(blocks@.take(i as int)),
            upper == upper_corner(blocks@.take(i as int)),
        decreases blocks.len() - i,
    {
        assert(blocks@.take(i + 1).drop_last() =~= blocks@.take(i as int));
        lower = lower.min(blocks[i].min);
        upper = upper.max(blocks[i].max);
        i += 1;
    }
    assert(blocks@.take(i as int) =~= blocks@);
    proof {
        assert forall|k: int| 0 <= k < blocks@.len() implies lower.x <= (
        #[trigger] blocks@[k]).min.x && lower.y <= blocks@[k].min.y && lower.z <= blocks@[k].min.z
            && upper.x >= blocks@[k].max.x && upper.y >= blocks@[k].max.y && upper.z
            >= blocks@[k].max.z by {
            lemma_corners_bound(blocks@, k);
        }
    }
    (lower, upper)
}

/// The blocks of a level, in the order in which they were laid out.
pub struct Level(pub Vec<Block>);

impl Level {
    /// The corners of the smallest box that holds the whole level.
    pub fn bounds(&self) -> (r: (IVec3, IVec3))
        ensures
            r == (lower_corner(self.0@), upper_corner(self.0@)),
    {
        bounds_of(self.0.as_slice())
    }
}

/// How far from the origin, along its direction's axis, a block comes to
/// rest that has left the play volume.
pub const EDGE: i32 = 20;

impl Block {
    /// The lower bound, along its direction's axis, of the place where the
    /// block rests once it has left the play volume.
    pub open spec fn flyaway_lo(&self) -> int {
        if self.direction.positive {
            EDGE - self.extent(self.direction.axis)
        } else {
            -(EDGE as int)
        }
    }

    /// The upper bound, along its direction's axis, of the place where the
    /// block rests once it has left the play volume.
    pub open spec fn flyaway_hi(&self) -> int {
        if self.direction.positive {
            EDGE as int
        } else {
            -EDGE + self.extent(self.direction.axis)
        }
    }

    /// Whether the place where the block rests once it has left the play
    /// volume has `i32` coordinates.
    pub open spec fn flyaway_in_range(&self) -> bool {
        i32::MIN <= self.flyaway_lo() <= i32::MAX && i32::MIN <= self.flyaway_hi() <= i32::MAX
    }

    /// The block far out along its direction, with its size kept: its
    /// leading face lies `EDGE` units from the origin.
    pub open spec fn flyaway(&self) -> Block {
        let axis = self.direction.axis;
        Block {
            direction: self.direction,
            min: axis.spec_with_component(self.min, self.flyaway_lo() as i32),
            max: axis.spec_with_component(self.max, self.flyaway_hi() as i32),
        }
    }

    /// Whether the block can be asked to fly away: `flyaway_in_range`,
    /// decided at run time.
    pub fn can_fly_away(&self) -> (r: bool)
        ensures
            r == self.flyaway_in_range(),
    {
        let axis = self.direction.axis;
        let size: i64 = axis.ivec3_component(self.max) as i64 - axis.ivec3_component(
            self.min,
        ) as i64;
        let (lo, hi): (i64, i64) = if self.direction.positive {
            (EDGE as i64 - size, EDGE as i64)
        } else {
            (-(EDGE as i64), -(EDGE as i64) + size)
        };
        i32::MIN as i64 <= lo && lo <= i32::MAX as i64 && i32::MIN as i64 <= hi && hi
            <= i32::MAX as i64
    }
}

/// A well-formed block can fly away, and is as long along each axis when
/// it has flown away as it was.
pub proof fn lemma_well_formed_block_flies_in_range(block: Block)
    requires
        block.wf(),
    ensures
        block.flyaway_in_range(),
        block.flyaway().wf(),
        forall|axis: Axis| block.flyaway().extent(axis) == block.extent(axis),
{
    assert forall|axis: Axis| block.flyaway().extent(axis) == block.extent(axis) by {
        lemma_flyaway_keeps_extent(block, axis);
    }
}

proof fn lemma_flyaway_keeps_extent(block: Block, axis: Axis)
    requires
        block.flyaway_in_range(),
    ensures
        block.flyaway().extent(axis) == block.extent(axis),
{
}

/// The place far outside the play volume to which a block is sent that
/// nothing stops.
pub fn get_flyaway_block_position(block: &Block) -> (r: Block)
    requires
        block.flyaway_in_range(),
    ensures
        r == block.flyaway(),
{
    let axis = block.direction.axis;
    let size: i64 = axis.ivec3_component(block.max) as i64 - axis.ivec3_component(
        block.min,
    ) as i64;
    let (new_min, new_max): (i64, i64) = if block.direction.positive {
        (EDGE as i64 - size, EDGE as i64)
    } else {
        (-(EDGE as i64), -(EDGE as i64) + size)
    };
    Block {
        direction: block.direction,
        min: axis.with_component(block.min, new_min as i32),
        max: axis.with_component(block.max, new_max as i32),
    }
}

/// What a click on a block sets going: the place to which the block slides
/// and whether it leaves the level when it gets there.
#[derive(Clone, Copy, Debug, PartialEq, Eq, Structural)]
pub struct Move {
    pub block: Block,
    pub should_despawn: bool,
}

/// What a click on `block` sets going when `nearest` is the nearest block
/// in its way, if there is one. The block slides up to that block where it
/// can, and flies away where there is none or it cannot; nothing happens
/// where that would leave the block in place.
pub open spec fn spec_resolve_move(block: Block, nearest: Option<Block>) -> Option<Move> {
    let slid = match nearest {
        Some(b) => block.spec_move_block(&b),
        None => None,
    };
    let target = match slid {
        Some(b) => b,
        None => block.flyaway(),
    };
    if target != block {
        Some(Move { block: target, should_despawn: slid is None })
    } else {
        None
    }
}

#[verifier::when_used_as_spec(spec_resolve_move)]
pub fn resolve_move(block: Block, nearest: Option<Block>) -> (r: Option<Move>)
    requires
        block.flyaway_in_range(),
        nearest matches Some(b) ==> block.move_in_range(b),
    ensures
        r == spec_resolve_move(block, nearest),
{
    let pos_opt = match nearest {
        Some(b) => block.move_block(&b),
        None => None,
    };
    let should_despawn = pos_opt.is_none();
    let flyaway = get_flyaway_block_position(&block);
    let new_block = match pos_opt {
        Some(b) => b,
        None => flyaway,
    };
    if new_block != block {
        Some(Move { block: new_block, should_despawn })
    } else {
        None
    }
}

/// What a click on `block` sets going in a level that holds `all_blocks`:
/// `resolve_move` against the nearest block in the way of `block`.
pub fn attempt_move(block: &Block, all_blocks: &[Block]) -> (r: Option<Move>)
    requires
        block.flyaway_in_range(),
        forall|j: int| 0 <= j < all_blocks@.len() ==> block.move_in_range(#[trigger] all_blocks@[j]),
    ensures
        (forall|j: int|
            0 <= j < all_blocks@.len() ==> !block.spec_possible_collision(
                &#[trigger] all_blocks@[j],
            )) ==> r == spec_resolve_move(*block, None),
        forall|i: int|
            block.is_nearest_in_front(all_blocks@, i) ==> r == spec_resolve_move(
                *block,
                Some(#[trigger] all_blocks@[i]),
            ),
{
    let nearest = block.get_nearest_block_in_front(all_blocks);
    proof {
        lemma_nearest_is_unique(*block, all_blocks@);
    }
    resolve_move(*block, nearest)
}

/// At most one block of a sequence is the first of the nearest blocks in
/// the way of `block`.
pub proof fn lemma_nearest_is_unique(block: Block, all: Seq<Block>)
    ensures
        forall|i: int, j: int|
            block.is_nearest_in_front(all, i) && block.is_nearest_in_front(all, j) ==> i == j,
{
    assert forall|i: int, j: int|
        block.is_nearest_in_front(all, i) && block.is_nearest_in_front(all, j) implies i == j by {
        if i < j {
            assert(block.spec_possible_collision(&all[i]));
        } else if j < i {
            assert(block.spec_possible_collision(&all[j]));
        }
    }
}

} // verus!
