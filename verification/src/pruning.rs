use vstd::prelude::*;
use vstd::math::min;
use crate::block::{Axis, Block};
use crate::level::{bounds_of, lower_corner, upper_corner};
use crate::pruning_laws::lemma_remove_locked_result_is_lock_free;
use crate::vector::{IVec2, IVec3};

verus! {

/// The components of `v` along the two given axes.
pub open spec fn spec_project_ivec(v: IVec3, axes: [Axis; 2]) -> IVec2 {
    IVec2 { x: axes[0].spec_ivec3_component(v), y: axes[1].spec_ivec3_component(v) }
}

#[verifier::when_used_as_spec(spec_project_ivec)]
pub fn project_ivec(v: IVec3, axes: [Axis; 2]) -> (r: IVec2)
    ensures
        r == spec_project_ivec(v, axes),
{
    IVec2::new(axes[0].ivec3_component(v), axes[1].ivec3_component(v))
}

/// Whether the block belongs to the line that runs along `axis` through the
/// grid cell `(x, y)` of the plane orthogonal to it: whether, in that plane,
/// the block's center lies within half a unit of the cell's center,
/// measured as the sum of the distances along the plane's two axes.
pub open spec fn on_line(b: Block, axis: Axis, x: int, y: int) -> bool {
    let u = b.center2(axis.spec_next_rh()) - (2 * x + 1);
    let v = b.center2(axis.spec_next_rh().spec_next_rh()) - (2 * y + 1);
    (if u >= 0 { u } else { -u }) + (if v >= 0 { v } else { -v }) <= 1
}

/// `on_line` as a predicate on blocks.
pub open spec fn on_line_of(axis: Axis, x: int, y: int) -> spec_fn(Block) -> bool {
    |b: Block| on_line(b, axis, x, y)
}

/// The blocks of `blocks` on the line along `axis` through the cell
/// `(x, y)`, in the order in which they come.
pub open spec fn line_of(blocks: Seq<Block>, axis: Axis, x: int, y: int) -> Seq<Block> {
    blocks.filter(on_line_of(axis, x, y))
}

fn is_on_line(b: &Block, axis: &Axis, point: IVec2) -> (r: bool)
    ensures
        r == on_line(*b, *axis, point.x as int, point.y as int),
{
    let others = axis.remaining_two();
    let cu: i64 = others[0].ivec3_component(b.min) as i64 + others[0].ivec3_component(b.max) as i64;
    let cv: i64 = others[1].ivec3_component(b.min) as i64 + others[1].ivec3_component(b.max) as i64;
    let u: i64 = cu - (2 * (point.x as i64) + 1);
    let v: i64 = cv - (2 * (point.y as i64) + 1);
    (if u >= 0 { u } else { -u }) + (if v >= 0 { v } else { -v }) <= 1
}

/// The blocks on the line along `dir` through the grid cell `point` of the
/// plane orthogonal to `dir`.
pub fn extract_along_line(dir: &Axis, point: IVec2, blocks: &[Block]) -> (r: Vec<Block>)
    ensures
        r@ == line_of(blocks@, *dir, point.x as int, point.y as int),
{
    let mut res: Vec<Block> = Vec::new();
    let mut i: usize = 0;
    let ghost pred = on_line_of(*dir, point.x as int, point.y as int);
    proof {
        reveal(Seq::filter);
        assert(blocks@.take(0) =~= Seq::<Block>::empty());
    }
    while i < blocks.len()
        invariant
            i <= blocks.len(),
            pred == on_line_of(*dir, point.x as int, point.y as int),
            res@ == blocks@.take(i as int).filter(pred),
        decreases blocks.len() - i,
    {
        proof {
            assert(blocks@.take(i + 1) =~= blocks@.take(i as int).push(blocks@[i as int]));
            blocks@.take(i as int).lemma_filter_push(blocks@[i as int], pred);
        }
        if is_on_line(&blocks[i], dir, point) {
            res.push(blocks[i]);
        }
        i += 1;
    }
    assert(blocks@.take(i as int) =~= blocks@);
    res
}

/// The index of the first block at or after `from` whose direction has the
/// given polarity; the length of the line where there is none.
pub open spec fn first_with(line: Seq<Block>, from: int, positive: bool) -> int
    decreases line.len() - from,
{
    if from < 0 || from >= line.len() {
        line.len() as int
    } else if line[from].direction.positive == positive {
        from
    } else {
        first_with(line, from + 1, positive)
    }
}

/// `first_with` finds a block of the polarity asked for, and no block
/// before it, from `from` on, has that polarity.
pub proof fn lemma_first_with(line: Seq<Block>, from: int, positive: bool)
    requires
        0 <= from <= line.len(),
    ensures
        from <= first_with(line, from, positive) <= line.len(),
        first_with(line, from, positive) < line.len() ==> line[first_with(
            line,
            from,
            positive,
        )].direction.positive == positive,
        forall|j: int|
            from <= j < first_with(line, from, positive) ==> (#[trigger] line[j]).direction.positive
                != positive,
    decreases line.len() - from,
{
    if from < line.len() && line[from].direction.positive != positive {
        lemma_first_with(line, from + 1, positive);
    }
}

/// Whether some block of the line with a positive direction comes before
/// one with a negative direction: the two can never get out of each other's
/// way.
pub open spec fn has_lock(line: Seq<Block>) -> bool {
    exists|i: int, j: int|
        0 <= i < j < line.len() && (#[trigger] line[i]).direction.positive && !(
        #[trigger] line[j]).direction.positive
}

/// The blocks of a line that lock each other. Where a positive block comes
/// before a negative one, these are the positive blocks from the first
/// positive block up to the first negative block behind it, followed by
/// all negative blocks from there on. Otherwise there are none.
pub open spec fn locked(line: Seq<Block>) -> Seq<Block> {
    let p = first_with(line, 0, true);
    let n = first_with(line, p, false);
    if n < line.len() {
        line.subrange(p, n) + line.subrange(n, line.len() as int).filter(is_negative())
    } else {
        Seq::empty()
    }
}

/// A line has locked blocks exactly where it has a lock.
pub proof fn lemma_locked_iff_has_lock(line: Seq<Block>)
    ensures
        locked(line).len() > 0 <==> has_lock(line),
{
    let p = first_with(line, 0, true);
    lemma_first_with(line, 0, true);
    let n = first_with(line, p, false);
    lemma_first_with(line, p, false);
    if n < line.len() {
        assert(p < n);
        assert(line[p].direction.positive && !line[n].direction.positive);
        assert(line.subrange(p, n).len() > 0);
    } else {
        if has_lock(line) {
            let (i, j) = choose|i: int, j: int|
                0 <= i < j < line.len() && (#[trigger] line[i]).direction.positive && !(
                #[trigger] line[j]).direction.positive;
            assert(p <= i);
            assert(false);
        }
    }
}

/// Scans a line of blocks, given in ascending order along the line, and
/// reports the blocks that lock each other: the positive blocks met before
/// any negative block was taken, then the negative blocks met after a
/// positive one.
pub fn locked_blocks_to_remove(blocks: &[Block]) -> (r: Vec<Block>)
    ensures
        r@ == locked(blocks@),
        r@.len() > 0 <==> has_lock(blocks@),
{
    let mut forward: Vec<Block> = Vec::new();
    let mut backward: Vec<Block> = Vec::new();
    let ghost line = blocks@;
    let ghost p = first_with(line, 0, true);
    let ghost n = first_with(line, p, false);
    let ghost neg = is_negative();
    proof {
        lemma_first_with(line, 0, true);
        lemma_first_with(line, p, false);
        lemma_locked_iff_has_lock(line);
        reveal(Seq::filter);
        assert(line.subrange(0, 0) =~= Seq::<Block>::empty());
    }
    let mut i: usize = 0;
    while i < blocks.len()
        invariant
            i <= blocks.len(),
            line == blocks@,
            neg == is_negative(),
            0 <= p <= n <= line.len(),
            p < line.len() ==> line[p].direction.positive,
            n < line.len() ==> !line[n].direction.positive,
            forall|j: int| 0 <= j < p ==> !(#[trigger] line[j]).direction.positive,
            forall|j: int| p <= j < n ==> (#[trigger] line[j]).direction.positive,
            forward@ == line.subrange(min(p, i as int), min(n, i as int)),
            backward@ == line.subrange(min(n, i as int), i as int).filter(neg),
            backward@.len() > 0 <==> i > n,
        decreases blocks.len() - i,
    {
        let block = blocks[i];
        let seen_positive: bool = !forward.is_empty();
        let seen_negative: bool = !backward.is_empty();
        assert(seen_positive <==> i > p);
        assert(seen_negative <==> i > n);
        proof {
            let k = i as int;
            if k >= n {
                assert(line.subrange(n, k + 1) =~= line.subrange(n, k).push(line[k]));
                line.subrange(n, k).lemma_filter_push(line[k], neg);
            } else {
                reveal(Seq::filter);
                assert(line.subrange(k + 1, k + 1) =~= Seq::<Block>::empty());
            }
            if p <= k < n {
                assert(line.subrange(p, k + 1) =~= line.subrange(p, k).push(line[k]));
            }
            if k < p {
                assert(line.subrange(k + 1, k + 1) =~= line.subrange(k, k));
            }
        }
        if !seen_negative && block.direction.positive {
            forward.push(block);
        }
        if seen_positive && !block.direction.positive {
            backward.push(block);
        }
        i += 1;
    }
    if !forward.is_empty() && !backward.is_empty() {
        forward.append(&mut backward);
        forward
    } else {
        Vec::new()
    }
}

/// The predicate that holds of the blocks that do not occur in `removed`.
pub open spec fn not_in(removed: Seq<Block>) -> spec_fn(Block) -> bool {
    |b: Block| !removed.contains(b)
}

/// `blocks` without every block that is equal to one of `removed`.
pub open spec fn without(blocks: Seq<Block>, removed: Seq<Block>) -> Seq<Block> {
    blocks.filter(not_in(removed))
}

/// The predicate that holds of the blocks that occur in `kept`.
pub open spec fn occurs_in(kept: Seq<Block>) -> spec_fn(Block) -> bool {
    |b: Block| kept.contains(b)
}

/// Whether `after` is `before` with every block of some values left out:
/// the blocks of `before` that still occur in `after`, in their order.
pub open spec fn restricts(after: Seq<Block>, before: Seq<Block>) -> bool {
    after == before.filter(occurs_in(after))
}

/// The predicate that holds of the blocks with a negative direction.
pub open spec fn is_negative() -> spec_fn(Block) -> bool {
    |b: Block| !b.direction.positive
}

/// `blocks` after the line along `axis` through the cell `(x, y)` has been
/// cleared of the blocks that lock each other on it.
pub open spec fn prune_line(blocks: Seq<Block>, axis: Axis, x: int, y: int) -> Seq<Block> {
    without(blocks, locked(line_of(blocks, axis, x, y)))
}

/// `blocks` after the lines through the cells `(x, y)`, `(x, y + 1)` and so
/// on up to `(x, y_end - 1)` have been cleared one after the other, each on
/// what the one before it left.
pub open spec fn prune_row(blocks: Seq<Block>, axis: Axis, x: int, y: int, y_end: int) -> Seq<
    Block,
>
    decreases y_end - y,
{
    if y >= y_end {
        blocks
    } else {
        prune_row(prune_line(blocks, axis, x, y), axis, x, y + 1, y_end)
    }
}

/// `blocks` after the rows `x`, `x + 1` and so on up to `x_end - 1` have
/// been cleared one after the other, each from `y` up to `y_end - 1`.
pub open spec fn prune_rows(
    blocks: Seq<Block>,
    axis: Axis,
    x: int,
    x_end: int,
    y: int,
    y_end: int,
) -> Seq<Block>
    decreases x_end - x,
{
    if x >= x_end {
        blocks
    } else {
        prune_rows(prune_row(blocks, axis, x, y, y_end), axis, x + 1, x_end, y, y_end)
    }
}

/// `blocks` after every line along `axis` through a cell of the box from
/// `lower` to `upper` has been cleared.
pub open spec fn prune_along(blocks: Seq<Block>, axis: Axis, lower: IVec3, upper: IVec3) -> Seq<
    Block,
> {
    let u = axis.spec_next_rh();
    let v = u.spec_next_rh();
    prune_rows(
        blocks,
        axis,
        u.spec_ivec3_component(lower) as int,
        u.spec_ivec3_component(upper) as int,
        v.spec_ivec3_component(lower) as int,
        v.spec_ivec3_component(upper) as int,
    )
}

/// `blocks` after one pass along X, one along Y and one along Z, each over
/// the lines through the box that bounds the blocks as they were given.
pub open spec fn pruned(blocks: Seq<Block>) -> Seq<Block> {
    let lower = lower_corner(blocks);
    let upper = upper_corner(blocks);
    prune_along(
        prune_along(prune_along(blocks, Axis::X, lower, upper), Axis::Y, lower, upper),
        Axis::Z,
        lower,
        upper,
    )
}

/// Whether no line along `axis` through a cell of the given rectangle
/// holds a lock.
pub open spec fn lock_free_in(
    blocks: Seq<Block>,
    axis: Axis,
    x: int,
    x_end: int,
    y: int,
    y_end: int,
) -> bool {
    forall|u: int, v: int|
        x <= u < x_end && y <= v < y_end ==> !has_lock(#[trigger] line_of(blocks, axis, u, v))
}

/// Whether no line along `axis` through a cell of the box from `lower` to
/// `upper` holds a lock.
pub open spec fn lock_free_along(blocks: Seq<Block>, axis: Axis, lower: IVec3, upper: IVec3) -> bool {
    let u = axis.spec_next_rh();
    let v = u.spec_next_rh();
    lock_free_in(
        blocks,
        axis,
        u.spec_ivec3_component(lower) as int,
        u.spec_ivec3_component(upper) as int,
        v.spec_ivec3_component(lower) as int,
        v.spec_ivec3_component(upper) as int,
    )
}

/// Whether no line through a cell of the box from `lower` to `upper`,
/// along any of the three axes, holds a lock.
pub open spec fn lock_free(blocks: Seq<Block>, lower: IVec3, upper: IVec3) -> bool {
    &&& lock_free_along(blocks, Axis::X, lower, upper)
    &&& lock_free_along(blocks, Axis::Y, lower, upper)
    &&& lock_free_along(blocks, Axis::Z, lower, upper)
}

fn contains_block(list: &Vec<Block>, b: &Block) -> (r: bool)
    ensures
        r == list@.contains(*b),
{
    let mut i: usize = 0;
    while i < list.len()
        invariant
            i <= list.len(),
            forall|j: int| 0 <= j < i ==> list@[j] != *b,
        decreases list.len() - i,
    {
        if list[i] == *b {
            return true;
        }
        i += 1;
    }
    false
}

fn remove_all(blocks: &mut Vec<Block>, to_remove: &Vec<Block>)
    ensures
        final(blocks)@ == without(old(blocks)@, to_remove@),
{
    let mut kept: Vec<Block> = Vec::new();
    let mut i: usize = 0;
    let ghost pred = not_in(to_remove@);
    proof {
        reveal(Seq::filter);
        assert(blocks@.take(0) =~= Seq::<Block>::empty());
    }
    while i < blocks.len()
        invariant
            i <= blocks.len(),
            blocks@ == old(blocks)@,
            pred == not_in(to_remove@),
            kept@ == blocks@.take(i as int).filter(pred),
        decreases blocks.len() - i,
    {
        proof {
            assert(blocks@.take(i + 1) =~= blocks@.take(i as int).push(blocks@[i as int]));
            blocks@.take(i as int).lemma_filter_push(blocks@[i as int], pred);
        }
        let b = blocks[i];
        if !contains_block(to_remove, &b) {
            kept.push(b);
        }
        i += 1;
    }
    assert(blocks@.take(i as int) =~= blocks@);
    *blocks = kept;
}

fn prune_axis(blocks: &mut Vec<Block>, axis: &Axis, lower: IVec3, upper: IVec3)
    ensures
        final(blocks)@ == prune_along(old(blocks)@, *axis, lower, upper),
{
    let remaining = axis.remaining_two();
    let lower_proj = project_ivec(lower, remaining);
    let upper_proj = project_ivec(upper, remaining);
    let mut x: i32 = lower_proj.x;
    while x < upper_proj.x
        invariant
            prune_rows(
                blocks@,
                *axis,
                x as int,
                upper_proj.x as int,
                lower_proj.y as int,
                upper_proj.y as int,
            ) == prune_along(old(blocks)@, *axis, lower, upper),
        decreases upper_proj.x - x,
    {
        let ghost row_start = blocks@;
        let mut y: i32 = lower_proj.y;
        while y < upper_proj.y
            invariant
                x < upper_proj.x,
                prune_row(blocks@, *axis, x as int, y as int, upper_proj.y as int) == prune_row(
                    row_start,
                    *axis,
                    x as int,
                    lower_proj.y as int,
                    upper_proj.y as int,
                ),
            decreases upper_proj.y - y,
        {
            let line_of_blocks = extract_along_line(axis, IVec2::new(x, y), blocks.as_slice());
            let to_remove = locked_blocks_to_remove(line_of_blocks.as_slice());
            remove_all(blocks, &to_remove);
            y += 1;
        }
        x += 1;
    }
}

/// Clears the level of blocks that lock each other. The lines along X
/// through every cell of the box that bounds the blocks are scanned first,
/// then those along Y, then those along Z; what a scan reports is removed
/// at once, so that later scans see what is left. What is left are the
/// blocks of some values in their order, and no line holds a lock.
pub fn remove_locked(blocks: &mut Vec<Block>)
    ensures
        final(blocks)@ == pruned(old(blocks)@),
        restricts(final(blocks)@, old(blocks)@),
        lock_free(final(blocks)@, lower_corner(old(blocks)@), upper_corner(old(blocks)@)),
{
    let (lower, upper) = bounds_of(blocks.as_slice());
    prune_axis(blocks, &Axis::X, lower, upper);
    prune_axis(blocks, &Axis::Y, lower, upper);
    prune_axis(blocks, &Axis::Z, lower, upper);
    proof {
        lemma_remove_locked_result_is_lock_free(old(blocks)@);
    }
}

} // verus!
