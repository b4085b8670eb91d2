use vstd::prelude::*;
use rand::rngs::ThreadRng;
use crate::block::{Axis, Block, Direction};
use crate::pruning::{pruned, remove_locked};
use crate::random::{choose_axis, random_range, random_ratio, thread_rng};
use crate::tiling::{blocks_apart, lemma_level_blocks_are_well_formed};
use crate::vector::{box_within, IVec3};

verus! {

/// A box of the generation volume that is still to be subdivided: one
/// half-open range of grid coordinates per axis.
#[derive(Clone, Copy, Debug)]
pub struct Seed {
    pub x: (i32, i32),
    pub y: (i32, i32),
    pub z: (i32, i32),
}

impl Seed {
    pub fn new(x: (i32, i32), y: (i32, i32), z: (i32, i32)) -> (r: Seed)
        ensures
            r == (Seed { x, y, z }),
    {
        Seed { x, y, z }
    }

    /// The range of the seed along `axis`.
    pub open spec fn field(&self, axis: Axis) -> (i32, i32) {
        match axis {
            Axis::X => self.x,
            Axis::Y => self.y,
            Axis::Z => self.z,
        }
    }

    /// The lower bound of the seed along `axis`.
    pub open spec fn lo(&self, axis: Axis) -> int {
        self.field(axis).0 as int
    }

    /// The upper bound of the seed along `axis`, which the seed excludes.
    pub open spec fn hi(&self, axis: Axis) -> int {
        self.field(axis).1 as int
    }

    /// The number of grid cells that the seed spans along `axis`.
    pub open spec fn width(&self, axis: Axis) -> int {
        self.hi(axis) - self.lo(axis)
    }

    /// A well-formed seed spans at least one cell along each axis, and no
    /// more cells than an `i32` can count.
    pub open spec fn wf(&self) -> bool {
        &&& 1 <= self.width(Axis::X) <= i32::MAX
        &&& 1 <= self.width(Axis::Y) <= i32::MAX
        &&& 1 <= self.width(Axis::Z) <= i32::MAX
    }

    /// Whether the seed is well formed.
    pub fn is_valid(&self) -> (r: bool)
        ensures
            r == self.wf(),
    {
        let x: i64 = self.x.1 as i64 - self.x.0 as i64;
        let y: i64 = self.y.1 as i64 - self.y.0 as i64;
        let z: i64 = self.z.1 as i64 - self.z.0 as i64;
        1 <= x && x <= i32::MAX as i64 && 1 <= y && y <= i32::MAX as i64 && 1 <= z && z
            <= i32::MAX as i64
    }

    /// The seed with its range along `axis` replaced.
    pub open spec fn with_field(&self, axis: Axis, range: (i32, i32)) -> Seed {
        match axis {
            Axis::X => Seed { x: range, ..*self },
            Axis::Y => Seed { y: range, ..*self },
            Axis::Z => Seed { z: range, ..*self },
        }
    }

    /// The part of the seed below `mid` along `axis`, and the part from
    /// `mid` on.
    pub open spec fn spec_split(&self, axis: &Axis, mid: i32) -> (Seed, Seed) {
        (
            self.with_field(*axis, (self.field(*axis).0, mid)),
            self.with_field(*axis, (mid, self.field(*axis).1)),
        )
    }

    #[verifier::when_used_as_spec(spec_split)]
    pub fn split(&self, axis: &Axis, mid: i32) -> (r: (Seed, Seed))
        ensures
            r == self.spec_split(axis, mid),
    {
        match axis {
            Axis::X => (
                Seed { x: (self.x.0, mid), y: self.y, z: self.z },
                Seed { x: (mid, self.x.1), y: self.y, z: self.z },
            ),
            Axis::Y => (
                Seed { x: self.x, y: (self.y.0, mid), z: self.z },
                Seed { x: self.x, y: (mid, self.y.1), z: self.z },
            ),
            Axis::Z => (
                Seed { x: self.x, y: self.y, z: (self.z.0, mid) },
                Seed { x: self.x, y: self.y, z: (mid, self.z.1) },
            ),
        }
    }

    /// The corner of the seed with the lowest coordinates.
    pub open spec fn min_corner(&self) -> IVec3 {
        IVec3 { x: self.x.0, y: self.y.0, z: self.z.0 }
    }

    /// The corner of the seed with the highest coordinates.
    pub open spec fn max_corner(&self) -> IVec3 {
        IVec3 { x: self.x.1, y: self.y.1, z: self.z.1 }
    }

    /// The lowest and the highest corner of the seed.
    pub fn to_min_max(&self) -> (r: (IVec3, IVec3))
        ensures
            r == (self.min_corner(), self.max_corner()),
    {
        (IVec3::new(self.x.0, self.y.0, self.z.0), IVec3::new(self.x.1, self.y.1, self.z.1))
    }

    /// The range of the seed along `axis`.
    pub fn get_field(&self, axis: &Axis) -> (r: (i32, i32))
        ensures
            r == self.field(*axis),
    {
        match axis {
            Axis::X => self.x,
            Axis::Y => self.y,
            Axis::Z => self.z,
        }
    }

    /// Whether the grid cell at `p` lies in the seed.
    pub open spec fn contains(&self, p: (int, int, int)) -> bool {
        &&& self.x.0 <= p.0 < self.x.1
        &&& self.y.0 <= p.1 < self.y.1
        &&& self.z.0 <= p.2 < self.z.1
    }

    /// The cube of the given side whose lowest corner is the origin.
    pub open spec fn cube(side: i32) -> Seed {
        Seed { x: (0, side), y: (0, side), z: (0, side) }
    }

    /// The number of axes along which the seed spans exactly `w` cells.
    pub open spec fn count_width(&self, w: int) -> int {
        (if self.width(Axis::X) == w { 1int } else { 0int })
        + (if self.width(Axis::Y) == w { 1int } else { 0int })
        + (if self.width(Axis::Z) == w { 1int } else { 0int })
    }

    /// Whether the seed has the size of a block: one cell, or two cells in
    /// a row.
    pub open spec fn is_cell(&self) -> bool {
        ||| self.count_width(1) == 3
        ||| self.count_width(1) == 2 && self.count_width(2) == 1
    }

    /// The first axis, in the order X, Y, Z and after the first `skip` such
    /// axes, along which the seed is more than one cell wide; Z if there is
    /// none.
    pub open spec fn wide_axis(&self, skip: int) -> Axis {
        if self.width(Axis::X) != 1 && skip <= 0 {
            Axis::X
        } else if self.width(Axis::Y) != 1 && skip <= (if self.width(Axis::X) != 1 {
            1int
        } else {
            0int
        }) {
            Axis::Y
        } else {
            Axis::Z
        }
    }

    /// The generator's branch for this seed.
    pub open spec fn branch(&self) -> Branch {
        let ones = self.count_width(1);
        if ones == 3 {
            Branch::Cell
        } else if ones == 2 {
            if self.count_width(2) == 1 {
                Branch::Pair(self.wide_axis(0))
            } else {
                Branch::Cut(self.wide_axis(0))
            }
        } else if ones == 1 {
            Branch::CutEither(self.wide_axis(0), self.wide_axis(1))
        } else {
            Branch::CutAny
        }
    }
}

/// The size of a seed along one axis, as far as the generator tells sizes
/// apart.
#[derive(Clone, Copy, Debug, PartialEq, Eq, Structural)]
pub enum Width {
    One,
    Two,
    More,
}

/// The class of a positive width.
pub open spec fn spec_width(x: int) -> Width {
    if x == 1 {
        Width::One
    } else if x == 2 {
        Width::Two
    } else {
        Width::More
    }
}

/// Classifies a positive width.
pub fn width(x: i32) -> (r: Width)
    requires
        x >= 1,
    ensures
        r == spec_width(x as int),
{
    if x == 1 {
        Width::One
    } else if x == 2 {
        Width::Two
    } else {
        Width::More
    }
}

/// The axis that a draw of 0, 1 or 2 stands for.
pub fn axis_from_index(index: i32) -> (r: Axis)
    requires
        0 <= index <= 2,
    ensures
        r == Axis::ALL[index as int],
{
    if index == 0 {
        Axis::X
    } else if index == 1 {
        Axis::Y
    } else {
        Axis::Z
    }
}

/// Draws one of the six directions: first the axis, then the polarity.
pub fn random_direction(rng: &mut ThreadRng) -> Direction {
    let axis = axis_from_index(random_range(rng, 0, 2));
    let positive = random_ratio(rng, 1, 2);
    Direction { axis, positive }
}

/// A cell of the generated partition: a box that holds a block sliding in
/// the given direction, or, without a direction, nothing.
#[derive(Clone, Copy, Debug)]
pub struct GBlock {
    pub direction: Option<Direction>,
    pub min: IVec3,
    pub max: IVec3,
}

impl GBlock {
    pub fn new(direction: Option<Direction>, min: IVec3, max: IVec3) -> (r: GBlock)
        ensures
            r == (GBlock { direction, min, max }),
    {
        GBlock { direction, min, max }
    }

    /// The block that the cell holds, if it holds one.
    pub open spec fn to_block(&self) -> Option<Block> {
        match self.direction {
            Some(direction) => Some(Block { direction, min: self.min, max: self.max }),
            None => None,
        }
    }

    /// Whether the cell is exactly the box of `seed`.
    pub open spec fn fills(&self, seed: Seed) -> bool {
        self.min == seed.min_corner() && self.max == seed.max_corner()
    }

    /// Whether the grid cell at `p` lies in the box.
    pub open spec fn contains(&self, p: (int, int, int)) -> bool {
        &&& self.min.x <= p.0 < self.max.x
        &&& self.min.y <= p.1 < self.max.y
        &&& self.min.z <= p.2 < self.max.z
    }

    /// Whether the box is a unit cube or a unit cube doubled along one axis.
    pub open spec fn is_unit_or_domino(&self) -> bool {
        let x = self.max.x - self.min.x;
        let y = self.max.y - self.min.y;
        let z = self.max.z - self.min.z;
        ||| (x == 1 && y == 1 && z == 1)
        ||| (x == 2 && y == 1 && z == 1)
        ||| (x == 1 && y == 2 && z == 1)
        ||| (x == 1 && y == 1 && z == 2)
    }
}

/// The block that a cell holds, if it holds one.
pub fn gblock_to_block(gb: &GBlock) -> (r: Option<Block>)
    ensures
        r == gb.to_block(),
{
    match gb.direction {
        Some(direction) => Some(Block { direction, min: gb.min, max: gb.max }),
        None => None,
    }
}

/// The blocks that the cells of `gb` hold, in the order of the cells.
pub open spec fn blocks_of(gb: Seq<GBlock>) -> Seq<Block> {
    gb.filter_map(|g: GBlock| g.to_block())
}

/// Drops the empty cells and turns the others into blocks, in order.
pub fn gblocks_to_blocks(gb: &[GBlock]) -> (r: Vec<Block>)
    ensures
        r@ == blocks_of(gb@),
{
    let mut res: Vec<Block> = Vec::new();
    let mut i: usize = 0;
    let ghost held = |g: GBlock| g.to_block();
    assert(gb@.take(0).filter_map(held) =~= Seq::<Block>::empty());
    while i < gb.len()
        invariant
            i <= gb.len(),
            held == |g: GBlock| g.to_block(),
            res@ == gb@.take(i as int).filter_map(held),
        decreases gb.len() - i,
    {
        proof {
            gb@.lemma_filter_map_take_succ(held, i as int);
        }
        match gblock_to_block(&gb[i]) {
            Some(b) => {
                res.push(b);
            },
            None => {},
        }
        i += 1;
    }
    assert(gb@.take(i as int) =~= gb@);
    res
}

/// The binary tree that the generator grows: a leaf is a cell, an inner
/// node a box cut in two, with the lower part on the left.
pub enum Tree {
    Leaf(GBlock),
    Node(Box<Tree>, Box<Tree>),
}

impl Tree {
    /// The cells at the leaves of the tree, from left to right.
    pub open spec fn leaves(&self) -> Seq<GBlock>
        decreases self,
    {
        match self {
            Tree::Leaf(g) => seq![*g],
            Tree::Node(l, r) => l.leaves() + r.leaves(),
        }
    }

    /// Whether the tree subdivides the box of `seed`: a leaf is that box
    /// itself and has the size of a block; an inner node cuts the box at an
    /// inner grid plane, and its children subdivide the two parts.
    pub open spec fn partitions(&self, seed: Seed) -> bool
        decreases self,
    {
        match self {
            Tree::Leaf(g) => g.fills(seed) && seed.is_cell(),
            Tree::Node(l, r) => exists|axis: Axis, mid: i32|
                {
                    &&& seed.lo(axis) < mid < seed.hi(axis)
                    &&& l.partitions(#[trigger] seed.spec_split(&axis, mid).0)
                    &&& r.partitions(seed.spec_split(&axis, mid).1)
                },
        }
    }
}

fn flatten_tree_rec(t: &Tree, acc: &mut Vec<GBlock>)
    ensures
        final(acc)@ == old(acc)@ + t.leaves(),
    decreases t,
{
    match t {
        Tree::Leaf(x) => {
            acc.push(*x);
            assert(acc@ =~= old(acc)@ + t.leaves());
        },
        Tree::Node(l, r) => {
            flatten_tree_rec(l, acc);
            flatten_tree_rec(r, acc);
            assert(acc@ =~= old(acc)@ + t.leaves());
        },
    }
}

/// Collects the leaves of the tree from left to right.
pub fn flatten_tree(t: &Tree) -> (r: Vec<GBlock>)
    ensures
        r@ == t.leaves(),
{
    let mut acc = Vec::new();
    flatten_tree_rec(t, &mut acc);
    assert(acc@ =~= t.leaves());
    acc
}

/// What the generator does with a seed, by the seed's widths.
#[derive(Clone, Copy, Debug, PartialEq, Eq, Structural)]
pub enum Branch {
    /// One cell: it becomes a leaf.
    Cell,
    /// Two cells in a row along the axis: cut between them, or a leaf.
    Pair(Axis),
    /// One cell wide along two axes and more than two along this one: cut
    /// across this axis.
    Cut(Axis),
    /// One cell wide along one axis only: cut across either of the others.
    CutEither(Axis, Axis),
    /// More than one cell wide along every axis: cut across any of them.
    CutAny,
}

/// Classifies a seed by its three widths and names the axes along which it
/// may be cut.
pub fn branch(seed: &Seed) -> (r: Branch)
    requires
        seed.wf(),
    ensures
        r == seed.branch(),
{
    let wx = width(seed.x.1 - seed.x.0);
    let wy = width(seed.y.1 - seed.y.0);
    let wz = width(seed.z.1 - seed.z.0);
    match (wx, wy, wz) {
        (Width::One, Width::One, Width::One) => Branch::Cell,
        (Width::Two, Width::One, Width::One) => Branch::Pair(Axis::X),
        (Width::One, Width::Two, Width::One) => Branch::Pair(Axis::Y),
        (Width::One, Width::One, Width::Two) => Branch::Pair(Axis::Z),
        (_, Width::One, Width::One) => Branch::Cut(Axis::X),
        (Width::One, _, Width::One) => Branch::Cut(Axis::Y),
        (Width::One, Width::One, _) => Branch::Cut(Axis::Z),
        (Width::One, _, _) => Branch::CutEither(Axis::Y, Axis::Z),
        (_, Width::One, _) => Branch::CutEither(Axis::X, Axis::Z),
        (_, _, Width::One) => Branch::CutEither(Axis::X, Axis::Y),
        _ => Branch::CutAny,
    }
}

/// The leaf for a seed that has the size of a block: with a direction it
/// holds a block, without one it stays empty.
pub fn leaf(seed: &Seed, direction: Option<Direction>) -> (r: GBlock)
    ensures
        r == (GBlock { direction, min: seed.min_corner(), max: seed.max_corner() }),
{
    let (min, max) = seed.to_min_max();
    GBlock::new(direction, min, max)
}

/// Draws whether a leaf holds a block and, if it does, the block's
/// direction.
fn random_leaf(rng: &mut ThreadRng, seed: &Seed) -> (r: GBlock)
    ensures
        r.fills(*seed),
{
    let filled: bool = random_ratio(rng, 1, 2);
    if filled {
        let dir = random_direction(rng);
        leaf(seed, Some(dir))
    } else {
        leaf(seed, None)
    }
}

/// Draws an inner grid plane across `axis` at which to cut the seed.
fn random_cut(rng: &mut ThreadRng, seed: &Seed, axis: &Axis) -> (mid: i32)
    requires
        seed.wf(),
        seed.width(*axis) >= 2,
    ensures
        seed.lo(*axis) < mid < seed.hi(*axis),
{
    let (low, high) = seed.get_field(axis);
    random_range(rng, low + 1, high - 1)
}

/// Grows a random tree that subdivides the seed into cells of the size of
/// a block, each cell empty or holding a block with a random direction.
pub fn gen_tree(rng: &mut ThreadRng, seed: Seed) -> (t: Tree)
    requires
        seed.wf(),
    ensures
        t.partitions(seed),
    decreases seed.width(Axis::X) + seed.width(Axis::Y) + seed.width(Axis::Z),
{
    let cut: Option<(Axis, i32)> = match branch(&seed) {
        Branch::Cell => None,
        Branch::Pair(axis) => {
            let split = random_ratio(rng, 1, 2);
            if split {
                let low = seed.get_field(&axis).0;
                Some((axis, low + 1))
            } else {
                None
            }
        },
        Branch::Cut(axis) => {
            let mid = random_cut(rng, &seed, &axis);
            Some((axis, mid))
        },
        Branch::CutEither(first, second) => {
            let axes: Vec<Axis> = vec![first, second];
            let picked = choose_axis(rng, axes.as_slice());
            assert(axes@.len() == 2);
            let axis = picked.unwrap();
            let mid = random_cut(rng, &seed, &axis);
            Some((axis, mid))
        },
        Branch::CutAny => {
            let axes: Vec<Axis> = vec![Axis::X, Axis::Y, Axis::Z];
            let picked = choose_axis(rng, axes.as_slice());
            assert(axes@.len() == 3);
            let axis = picked.unwrap();
            let mid = random_cut(rng, &seed, &axis);
            Some((axis, mid))
        },
    };
    match cut {
        None => Tree::Leaf(random_leaf(rng, &seed)),
        Some((axis, mid)) => {
            let (low_subseed, high_subseed) = seed.split(&axis, mid);
            let low_tree = gen_tree(rng, low_subseed);
            let high_tree = gen_tree(rng, high_subseed);
            let t = Tree::Node(Box::new(low_tree), Box::new(high_tree));
            assert(low_tree.partitions(seed.spec_split(&axis, mid).0));
            t
        },
    }
}

/// The level that a tree stands for: the blocks at its leaves, from left
/// to right, cleared of those that lock each other.
pub fn level_from_tree(tree: &Tree) -> (r: Vec<Block>)
    ensures
        r@ == pruned(blocks_of(tree.leaves())),
{
    let gblocks = flatten_tree(tree);
    let mut blocks: Vec<Block> = gblocks_to_blocks(gblocks.as_slice());
    remove_locked(&mut blocks);
    blocks
}

/// Generates a level in the cube of the given side: the level of some tree
/// that subdivides the cube. Its blocks are well formed, they lie in the
/// cube and no two of them share a cell of the grid.
pub fn generate_level(side_len: u8) -> (r: Vec<Block>)
    requires
        side_len >= 1,
    ensures
        exists|t: Tree|
            (#[trigger] t.partitions(Seed::cube(side_len as i32))) && r@ == pruned(
                blocks_of(t.leaves()),
            ),
        forall|i: int|
            0 <= i < r@.len() ==> (#[trigger] r@[i]).wf() && box_within(
                r@[i].min,
                r@[i].max,
                IVec3::spec_splat(0),
                IVec3::spec_splat(side_len as i32),
            ),
        blocks_apart(r@),
{
    let len = side_len as i32;
    let seed = Seed { x: (0, len), y: (0, len), z: (0, len) };
    let mut rng = thread_rng();
    let tree = gen_tree(&mut rng, seed);
    let level = level_from_tree(&tree);
    proof {
        lemma_level_blocks_are_well_formed(tree, seed);
    }
    assert(tree.partitions(Seed::cube(side_len as i32)) && level@ == pruned(
        blocks_of(tree.leaves()),
    ));
    level
}

/// Why a level could not be generated.
#[derive(Clone, Copy, Debug, PartialEq, Eq, Structural)]
pub enum GenerationError {
    /// The seed spans no cell along some axis, or more cells than an `i32`
    /// can count.
    InvalidSeedWidth,
}

/// `gen_tree` for any seed: a seed that is not well formed is refused.
pub fn try_gen_tree(rng: &mut ThreadRng, seed: Seed) -> (r: Result<Tree, GenerationError>)
    ensures
        seed.wf() ==> r is Ok && r->Ok_0.partitions(seed),
        !seed.wf() ==> r == Err::<Tree, GenerationError>(GenerationError::InvalidSeedWidth),
{
    if seed.is_valid() {
        Ok(gen_tree(rng, seed))
    } else {
        Err(GenerationError::InvalidSeedWidth)
    }
}

/// `generate_level` for any side: a side of 0 is refused.
pub fn try_generate_level(side_len: u8) -> (r: Result<Vec<Block>, GenerationError>)
    ensures
        side_len >= 1 ==> r is Ok && exists|t: Tree|
            (#[trigger] t.partitions(Seed::cube(side_len as i32))) && r->Ok_0@ == pruned(
                blocks_of(t.leaves()),
            ),
        side_len >= 1 ==> forall|i: int|
            0 <= i < r->Ok_0@.len() ==> (#[trigger] r->Ok_0@[i]).wf() && box_within(
                r->Ok_0@[i].min,
                r->Ok_0@[i].max,
                IVec3::spec_splat(0),
                IVec3::spec_splat(side_len as i32),
            ),
        side_len >= 1 ==> blocks_apart(r->Ok_0@),
        side_len == 0 ==> r == Err::<Vec<Block>, GenerationError>(
            GenerationError::InvalidSeedWidth,
        ),
{
    if side_len >= 1 {
        Ok(generate_level(side_len))
    } else {
        Err(GenerationError::InvalidSeedWidth)
    }
}

/// A block taken apart into its direction and its pair of corners, and
/// put together again from them, is the block that it was.
pub proof fn lemma_corner_round_trip(b: Block)
    ensures
        (GBlock { direction: Some(b.direction), min: b.min, max: b.max }).to_block() == Some(b),
{
}

} // verus!
