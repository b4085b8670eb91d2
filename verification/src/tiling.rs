use vstd::prelude::*;
use crate::block::{Axis, Block};
use crate::vector::{box_within, boxes_apart};
use crate::generation::{blocks_of, GBlock, Seed, Tree};
use crate::pruning::{occurs_in, pruned, restricts};
use crate::pruning_laws::lemma_remove_locked_result_is_lock_free;

verus! {

/// Every leaf of a tree that subdivides a seed is a unit cube or a unit
/// cube doubled along one axis: no leaf is thinner than one cell or longer
/// than two along any axis.
pub proof fn lemma_leaves_are_unit_or_domino(t: Tree, seed: Seed)
    requires
        t.partitions(seed),
    ensures
        forall|i: int| 0 <= i < t.leaves().len() ==> (#[trigger] t.leaves()[i]).is_unit_or_domino(),
    decreases t,
{
    match t {
        Tree::Leaf(g) => {
            assert(g.max.x - g.min.x == seed.width(Axis::X));
            assert(g.max.y - g.min.y == seed.width(Axis::Y));
            assert(g.max.z - g.min.z == seed.width(Axis::Z));
            assert(g.is_unit_or_domino());
            assert(t.leaves() =~= seq![g]);
        },
        Tree::Node(l, r) => {
            let (axis, mid) = choose|axis: Axis, mid: i32|
                {
                    &&& seed.lo(axis) < mid < seed.hi(axis)
                    &&& l.partitions(#[trigger] seed.spec_split(&axis, mid).0)
                    &&& r.partitions(seed.spec_split(&axis, mid).1)
                };
            lemma_leaves_are_unit_or_domino(*l, seed.spec_split(&axis, mid).0);
            lemma_leaves_are_unit_or_domino(*r, seed.spec_split(&axis, mid).1);
            assert forall|i: int| 0 <= i < t.leaves().len() implies (
            #[trigger] t.leaves()[i]).is_unit_or_domino() by {
                if i < l.leaves().len() {
                    assert(t.leaves()[i] == l.leaves()[i]);
                } else {
                    assert(t.leaves()[i] == r.leaves()[i - l.leaves().len()]);
                }
            }
        },
    }
}

/// The leaves of a tree that subdivides a seed tile the seed: no leaf
/// reaches outside it, every grid cell of it lies in a leaf, and no grid
/// cell lies in two leaves.
pub proof fn lemma_leaves_tile_seed(t: Tree, seed: Seed)
    requires
        t.partitions(seed),
    ensures
        forall|i: int, p: (int, int, int)|
            0 <= i < t.leaves().len() && #[trigger] t.leaves()[i].contains(p) ==> seed.contains(
                p,
            ),
        forall|p: (int, int, int)| #[trigger]
            seed.contains(p) ==> exists|i: int|
                0 <= i < t.leaves().len() && #[trigger] t.leaves()[i].contains(p),
        forall|i: int, j: int, p: (int, int, int)|
            0 <= i < j < t.leaves().len() && #[trigger] t.leaves()[i].contains(p) ==> !#[trigger] t.leaves()[j].contains(p),
    decreases t,
{
    match t {
        Tree::Leaf(g) => {
            assert forall|p: (int, int, int)| #[trigger] seed.contains(p) implies exists|i: int|
                0 <= i < t.leaves().len() && #[trigger] t.leaves()[i].contains(p) by {
                assert(t.leaves()[0].contains(p));
            }
        },
        Tree::Node(l, r) => {
            let (axis, mid) = choose|axis: Axis, mid: i32|
                {
                    &&& seed.lo(axis) < mid < seed.hi(axis)
                    &&& l.partitions(#[trigger] seed.spec_split(&axis, mid).0)
                    &&& r.partitions(seed.spec_split(&axis, mid).1)
                };
            let low = seed.spec_split(&axis, mid).0;
            let high = seed.spec_split(&axis, mid).1;
            lemma_leaves_tile_seed(*l, low);
            lemma_leaves_tile_seed(*r, high);
            let ll = l.leaves();
            let rl = r.leaves();
            let all = t.leaves();
            assert(all == ll + rl);
            assert forall|p: (int, int, int)|
                seed.contains(p) == (low.contains(p) || high.contains(p)) && !(low.contains(p)
                    && high.contains(p)) by {}
            assert forall|i: int, p: (int, int, int)|
                0 <= i < all.len() && #[trigger] all[i].contains(p) implies seed.contains(p) by {
                if i < ll.len() {
                    assert(ll[i].contains(p));
                } else {
                    assert(rl[i - ll.len()].contains(p));
                }
            }
            assert forall|p: (int, int, int)| #[trigger] seed.contains(p) implies exists|i: int|
                0 <= i < all.len() && #[trigger] all[i].contains(p) by {
                if low.contains(p) {
                    let i = choose|i: int| 0 <= i < ll.len() && #[trigger] ll[i].contains(p);
                    assert(all[i].contains(p));
                } else {
                    assert(high.contains(p));
                    let i = choose|i: int| 0 <= i < rl.len() && #[trigger] rl[i].contains(p);
                    assert(all[ll.len() + i].contains(p));
                }
            }
            assert forall|i: int, j: int, p: (int, int, int)|
                0 <= i < j < all.len() && #[trigger] all[i].contains(p) implies !#[trigger] all[j].contains(p) by {
                if j < ll.len() {
                    assert(ll[i].contains(p));
                    assert(all[j] == ll[j]);
                } else if i >= ll.len() {
                    assert(rl[i - ll.len()].contains(p));
                    assert(all[j] == rl[j - ll.len()]);
                } else {
                    assert(ll[i].contains(p));
                    assert(low.contains(p));
                    if all[j].contains(p) {
                        assert(rl[j - ll.len()].contains(p));
                        assert(high.contains(p));
                    }
                }
            }
        },
    }
}

/// The leaves of a tree that subdivides a seed lie in the seed, and no two
/// of them share a cell.
pub proof fn lemma_leaves_are_apart(t: Tree, seed: Seed)
    requires
        t.partitions(seed),
    ensures
        forall|i: int|
            0 <= i < t.leaves().len() ==> box_within(
                (#[trigger] t.leaves()[i]).min,
                t.leaves()[i].max,
                seed.min_corner(),
                seed.max_corner(),
            ),
        cells_apart(t.leaves()),
{
    let cells = t.leaves();
    lemma_leaves_are_unit_or_domino(t, seed);
    lemma_leaves_tile_seed(t, seed);
    assert forall|i: int| 0 <= i < cells.len() implies box_within(
        (#[trigger] cells[i]).min,
        cells[i].max,
        seed.min_corner(),
        seed.max_corner(),
    ) by {
        let g = cells[i];
        assert(g.is_unit_or_domino());
        assert(g.contains((g.min.x as int, g.min.y as int, g.min.z as int)));
        assert(g.contains((g.max.x - 1, g.max.y - 1, g.max.z - 1)));
    }
    assert forall|i: int, j: int| 0 <= i < j < cells.len() implies boxes_apart(
        (#[trigger] cells[i]).min,
        cells[i].max,
        (#[trigger] cells[j]).min,
        cells[j].max,
    ) by {
        let a = cells[i];
        let b = cells[j];
        assert(a.is_unit_or_domino() && b.is_unit_or_domino());
        if !boxes_apart(a.min, a.max, b.min, b.max) {
            let p = (
                (if a.min.x >= b.min.x { a.min.x } else { b.min.x }) as int,
                (if a.min.y >= b.min.y { a.min.y } else { b.min.y }) as int,
                (if a.min.z >= b.min.z { a.min.z } else { b.min.z }) as int,
            );
            assert(a.contains(p));
            assert(b.contains(p));
        }
    }
}

/// Whether no two of the cells share a cell of the grid.
pub open spec fn cells_apart(cells: Seq<GBlock>) -> bool {
    forall|i: int, j: int|
        0 <= i < j < cells.len() ==> boxes_apart(
            (#[trigger] cells[i]).min,
            cells[i].max,
            (#[trigger] cells[j]).min,
            cells[j].max,
        )
}

/// Whether no two of the blocks share a cell of the grid.
pub open spec fn blocks_apart(blocks: Seq<Block>) -> bool {
    forall|i: int, j: int|
        0 <= i < j < blocks.len() ==> boxes_apart(
            (#[trigger] blocks[i]).min,
            blocks[i].max,
            (#[trigger] blocks[j]).min,
            blocks[j].max,
        )
}

/// Among blocks of which no two share a cell, those that pass a filter
/// share none either.
pub proof fn lemma_filter_keeps_apart(blocks: Seq<Block>, pred: spec_fn(Block) -> bool)
    requires
        blocks_apart(blocks),
    ensures
        blocks_apart(blocks.filter(pred)),
    decreases blocks.len(),
{
    if blocks.len() == 0 {
        blocks.lemma_filter_len(pred);
    } else {
        let rest = blocks.drop_last();
        let b = blocks.last();
        assert(blocks =~= rest.push(b));
        rest.lemma_filter_push(b, pred);
        assert(blocks_apart(rest)) by {
            assert forall|i: int, j: int| 0 <= i < j < rest.len() implies boxes_apart(
                (#[trigger] rest[i]).min,
                rest[i].max,
                (#[trigger] rest[j]).min,
                rest[j].max,
            ) by {
                assert(rest[i] == blocks[i] && rest[j] == blocks[j]);
            }
        }
        lemma_filter_keeps_apart(rest, pred);
        if pred(b) {
            let kept = rest.filter(pred);
            let all = kept.push(b);
            assert forall|i: int, j: int| 0 <= i < j < all.len() implies boxes_apart(
                (#[trigger] all[i]).min,
                all[i].max,
                (#[trigger] all[j]).min,
                all[j].max,
            ) by {
                if j < kept.len() {
                    assert(all[i] == kept[i] && all[j] == kept[j]);
                } else {
                    assert(kept.contains(kept[i]));
                    rest.lemma_filter_contains_rev(pred, kept[i]);
                    let k = choose|k: int| 0 <= k < rest.len() && rest[k] == kept[i];
                    assert(blocks[k] == kept[i] && blocks[rest.len() as int] == b);
                }
            }
        }
    }
}

/// The blocks held by cells of which no two share a cell of the grid share
/// none either.
pub proof fn lemma_blocks_of_cells_apart(cells: Seq<GBlock>)
    requires
        cells_apart(cells),
    ensures
        blocks_apart(blocks_of(cells)),
    decreases cells.len(),
{
    let held = |g: GBlock| g.to_block();
    if cells.len() > 0 {
        let rest = cells.drop_last();
        let c = cells.last();
        let last = cells.len() - 1;
        cells.lemma_filter_map_take_succ(held, last);
        assert(cells.take(last + 1) =~= cells);
        assert(cells.take(last) =~= rest);
        assert(cells_apart(rest)) by {
            assert forall|i: int, j: int| 0 <= i < j < rest.len() implies boxes_apart(
                (#[trigger] rest[i]).min,
                rest[i].max,
                (#[trigger] rest[j]).min,
                rest[j].max,
            ) by {
                assert(rest[i] == cells[i] && rest[j] == cells[j]);
            }
        }
        lemma_blocks_of_cells_apart(rest);
        match c.to_block() {
            None => {
                assert(blocks_of(cells) =~= blocks_of(rest));
            },
            Some(b) => {
                let kept = blocks_of(rest);
                let all = blocks_of(cells);
                assert(all =~= kept.push(b));
                assert forall|i: int, j: int| 0 <= i < j < all.len() implies boxes_apart(
                    (#[trigger] all[i]).min,
                    all[i].max,
                    (#[trigger] all[j]).min,
                    all[j].max,
                ) by {
                    if j < kept.len() {
                        assert(all[i] == kept[i] && all[j] == kept[j]);
                    } else {
                        assert(kept.contains(kept[i]));
                        rest.lemma_filter_map_contains(held, kept[i]);
                        let g = choose|g: GBlock| #[trigger]
                            rest.contains(g) && held(g) == Some(kept[i]);
                        let k = choose|k: int| 0 <= k < rest.len() && rest[k] == g;
                        assert(cells[k] == g && cells[last] == c);
                    }
                }
            },
        }
    }
}

/// `remove_locked` lets no two blocks share a cell of the grid that did
/// not share one before.
pub proof fn lemma_remove_locked_keeps_apart(blocks: Seq<Block>)
    requires
        blocks_apart(blocks),
    ensures
        blocks_apart(pruned(blocks)),
{
    lemma_remove_locked_result_is_lock_free(blocks);
    lemma_filter_keeps_apart(blocks, occurs_in(pruned(blocks)));
}

/// The level of a tree that subdivides a seed holds unit cubes and unit
/// cubes doubled along one axis; they lie in the seed and no two of them
/// share a cell of the grid.
pub proof fn lemma_level_blocks_are_well_formed(t: Tree, seed: Seed)
    requires
        t.partitions(seed),
    ensures
        forall|i: int|
            0 <= i < pruned(blocks_of(t.leaves())).len() ==> {
                &&& (#[trigger] pruned(blocks_of(t.leaves()))[i]).wf()
                &&& box_within(
                    pruned(blocks_of(t.leaves()))[i].min,
                    pruned(blocks_of(t.leaves()))[i].max,
                    seed.min_corner(),
                    seed.max_corner(),
                )
            },
        blocks_apart(pruned(blocks_of(t.leaves()))),
{
    let cells = t.leaves();
    let blocks = blocks_of(cells);
    let level = pruned(blocks);
    lemma_leaves_are_unit_or_domino(t, seed);
    lemma_leaves_are_apart(t, seed);
    lemma_blocks_of_cells_apart(cells);
    lemma_remove_locked_keeps_apart(blocks);
    lemma_remove_locked_result_is_lock_free(blocks);
    assert forall|i: int| 0 <= i < level.len() implies (#[trigger] level[i]).wf() && box_within(
        level[i].min,
        level[i].max,
        seed.min_corner(),
        seed.max_corner(),
    ) by {
        let b = level[i];
        assert(level.contains(b));
        assert(blocks.contains(b));
        cells.lemma_filter_map_contains(|g: GBlock| g.to_block(), b);
        let g = choose|g: GBlock| #[trigger] cells.contains(g) && g.to_block() == Some(b);
        let k = choose|k: int| 0 <= k < cells.len() && cells[k] == g;
        assert(cells[k].is_unit_or_domino());
    }
}

} // verus!
