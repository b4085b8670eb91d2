use slide_blocks::block::{Axis, Block, Direction};
use slide_blocks::generation::{
    axis_from_index, branch, flatten_tree, gblock_to_block, gblocks_to_blocks, gen_tree,
    generate_level, leaf, level_from_tree, random_direction, try_gen_tree, try_generate_level,
    width, Branch, GBlock, GenerationError, Seed, Tree, Width,
};
use slide_blocks::pruning::{extract_along_line, locked_blocks_to_remove, remove_locked};
use slide_blocks::vector::{IVec2, IVec3};

fn cell(direction: Option<Direction>, min: (i32, i32, i32), max: (i32, i32, i32)) -> GBlock {
    GBlock::new(direction, IVec3::new(min.0, min.1, min.2), IVec3::new(max.0, max.1, max.2))
}

fn node(left: Tree, right: Tree) -> Tree {
    Tree::Node(Box::new(left), Box::new(right))
}

fn cube(side: i32) -> Seed {
    Seed::new((0, side), (0, side), (0, side))
}

fn same_cell(a: &GBlock, b: &GBlock) -> bool {
    a.direction == b.direction && a.min == b.min && a.max == b.max
}

fn extent(g: &GBlock) -> (i32, i32, i32) {
    (g.max.x - g.min.x, g.max.y - g.min.y, g.max.z - g.min.z)
}

fn is_unit_or_domino(e: (i32, i32, i32)) -> bool {
    e == (1, 1, 1) || e == (2, 1, 1) || e == (1, 2, 1) || e == (1, 1, 2)
}

fn covering(cells: &[GBlock], p: (i32, i32, i32)) -> usize {
    cells
        .iter()
        .filter(|g| {
            g.min.x <= p.0
                && p.0 < g.max.x
                && g.min.y <= p.1
                && p.1 < g.max.y
                && g.min.z <= p.2
                && p.2 < g.max.z
        })
        .count()
}

#[test]
fn widths_are_classified() {
    assert_eq!(width(1), Width::One);
    assert_eq!(width(2), Width::Two);
    assert_eq!(width(3), Width::More);
    assert_eq!(width(i32::MAX), Width::More);
}

#[test]
fn seed_is_split_at_the_given_plane() {
    let seed = Seed::new((0, 5), (1, 4), (-2, 2));
    let (low, high) = seed.split(&Axis::X, 2);
    assert_eq!((low.x, low.y, low.z), ((0, 2), (1, 4), (-2, 2)));
    assert_eq!((high.x, high.y, high.z), ((2, 5), (1, 4), (-2, 2)));
    let (low, high) = seed.split(&Axis::Y, 3);
    assert_eq!((low.x, low.y, low.z), ((0, 5), (1, 3), (-2, 2)));
    assert_eq!((high.x, high.y, high.z), ((0, 5), (3, 4), (-2, 2)));
    let (low, high) = seed.split(&Axis::Z, 0);
    assert_eq!((low.x, low.y, low.z), ((0, 5), (1, 4), (-2, 0)));
    assert_eq!((high.x, high.y, high.z), ((0, 5), (1, 4), (0, 2)));
}

#[test]
fn seed_corners_and_fields() {
    let seed = Seed::new((0, 5), (1, 4), (-2, 2));
    assert_eq!(seed.to_min_max(), (IVec3::new(0, 1, -2), IVec3::new(5, 4, 2)));
    assert_eq!(seed.get_field(&Axis::X), (0, 5));
    assert_eq!(seed.get_field(&Axis::Y), (1, 4));
    assert_eq!(seed.get_field(&Axis::Z), (-2, 2));
}

#[test]
fn seed_validity() {
    assert!(cube(1).is_valid());
    assert!(Seed::new((0, 5), (1, 4), (-2, 2)).is_valid());
    assert!(!cube(0).is_valid());
    assert!(!Seed::new((0, 5), (4, 4), (-2, 2)).is_valid());
    assert!(!Seed::new((0, 5), (1, 4), (2, -2)).is_valid());
    assert!(!Seed::new((i32::MIN, i32::MAX), (0, 1), (0, 1)).is_valid());
}

#[test]
fn single_cell_becomes_a_leaf() {
    assert_eq!(branch(&cube(1)), Branch::Cell);
    assert_eq!(branch(&Seed::new((4, 5), (-1, 0), (7, 8))), Branch::Cell);
}

#[test]
fn two_cells_in_a_row_are_a_pair() {
    assert_eq!(branch(&Seed::new((0, 2), (0, 1), (0, 1))), Branch::Pair(Axis::X));
    assert_eq!(branch(&Seed::new((0, 1), (3, 5), (0, 1))), Branch::Pair(Axis::Y));
    assert_eq!(branch(&Seed::new((0, 1), (0, 1), (-2, 0))), Branch::Pair(Axis::Z));
}

#[test]
fn longer_row_is_cut_across_its_length() {
    assert_eq!(branch(&Seed::new((0, 3), (0, 1), (0, 1))), Branch::Cut(Axis::X));
    assert_eq!(branch(&Seed::new((0, 1), (0, 9), (0, 1))), Branch::Cut(Axis::Y));
    assert_eq!(branch(&Seed::new((0, 1), (0, 1), (0, 4))), Branch::Cut(Axis::Z));
}

#[test]
fn slab_is_cut_across_either_wide_axis() {
    assert_eq!(branch(&Seed::new((0, 1), (0, 2), (0, 2))), Branch::CutEither(Axis::Y, Axis::Z));
    assert_eq!(branch(&Seed::new((0, 2), (0, 1), (0, 5))), Branch::CutEither(Axis::X, Axis::Z));
    assert_eq!(branch(&Seed::new((0, 7), (0, 3), (0, 1))), Branch::CutEither(Axis::X, Axis::Y));
}

#[test]
fn box_wide_on_all_axes_is_cut_across_any() {
    assert_eq!(branch(&cube(2)), Branch::CutAny);
    assert_eq!(branch(&cube(5)), Branch::CutAny);
    assert_eq!(branch(&Seed::new((0, 2), (0, 3), (0, 9))), Branch::CutAny);
}

#[test]
fn axis_of_a_draw() {
    assert_eq!(axis_from_index(0), Axis::X);
    assert_eq!(axis_from_index(1), Axis::Y);
    assert_eq!(axis_from_index(2), Axis::Z);
}

#[test]
fn random_directions_cover_all_six() {
    let mut rng = rand::rng();
    let mut seen = [false; 6];
    for _ in 0..2000 {
        let d = random_direction(&mut rng);
        let k = match d.axis {
            Axis::X => 0,
            Axis::Y => 2,
            Axis::Z => 4,
        } + if d.positive { 0 } else { 1 };
        seen[k] = true;
    }
    assert_eq!(seen, [true; 6]);
}

#[test]
fn leaf_fills_its_seed() {
    let seed = Seed::new((3, 4), (0, 2), (5, 6));
    let filled = leaf(&seed, Some(Direction::zn()));
    assert_eq!(filled.direction, Some(Direction::zn()));
    assert_eq!(filled.min, IVec3::new(3, 0, 5));
    assert_eq!(filled.max, IVec3::new(4, 2, 6));
    let empty = leaf(&seed, None);
    assert_eq!(empty.direction, None);
    assert_eq!((empty.min, empty.max), (filled.min, filled.max));
}

#[test]
fn cell_with_a_direction_becomes_a_block() {
    let g = cell(Some(Direction::yp()), (1, 2, 3), (2, 3, 5));
    assert_eq!(
        gblock_to_block(&g),
        Some(Block { direction: Direction::yp(), min: IVec3::new(1, 2, 3), max: IVec3::new(2, 3, 5) })
    );
}

#[test]
fn cell_without_a_direction_becomes_nothing() {
    assert_eq!(gblock_to_block(&cell(None, (1, 2, 3), (2, 3, 5))), None);
}

#[test]
fn block_survives_the_round_trip_through_its_corners() {
    for direction in [Direction::xp(), Direction::yn(), Direction::zp()] {
        let b = Block { direction, min: IVec3::new(-4, 0, 9), max: IVec3::new(-3, 2, 10) };
        let (min, max) = b.extract_mm();
        assert_eq!(gblock_to_block(&GBlock::new(Some(b.direction), min, max)), Some(b));
    }
}

#[test]
fn cells_become_blocks_in_order() {
    let cells = [
        cell(Some(Direction::xp()), (0, 0, 0), (1, 1, 1)),
        cell(None, (1, 0, 0), (2, 1, 1)),
        cell(Some(Direction::zn()), (2, 0, 0), (3, 1, 2)),
        cell(None, (3, 0, 0), (4, 1, 1)),
    ];
    let blocks = gblocks_to_blocks(&cells);
    assert_eq!(
        blocks,
        vec![
            Block { direction: Direction::xp(), min: IVec3::new(0, 0, 0), max: IVec3::new(1, 1, 1) },
            Block { direction: Direction::zn(), min: IVec3::new(2, 0, 0), max: IVec3::new(3, 1, 2) },
        ]
    );
    assert_eq!(gblocks_to_blocks(&[]), vec![]);
}

#[test]
fn tree_is_flattened_from_left_to_right() {
    let a = cell(Some(Direction::xp()), (0, 0, 0), (1, 1, 1));
    let b = cell(None, (1, 0, 0), (2, 1, 1));
    let c = cell(Some(Direction::yn()), (0, 1, 0), (2, 2, 1));
    let d = cell(None, (0, 0, 1), (2, 2, 2));
    let tree = node(node(node(Tree::Leaf(a), Tree::Leaf(b)), Tree::Leaf(c)), Tree::Leaf(d));
    let flat = flatten_tree(&tree);
    assert_eq!(flat.len(), 4);
    assert!(same_cell(&flat[0], &a));
    assert!(same_cell(&flat[1], &b));
    assert!(same_cell(&flat[2], &c));
    assert!(same_cell(&flat[3], &d));
    let mirrored = node(Tree::Leaf(d), node(Tree::Leaf(c), node(Tree::Leaf(b), Tree::Leaf(a))));
    let flat = flatten_tree(&mirrored);
    assert!(same_cell(&flat[0], &d));
    assert!(same_cell(&flat[3], &a));
}

#[test]
fn single_leaf_is_flattened_to_itself() {
    let a = cell(None, (0, 0, 0), (1, 1, 1));
    let flat = flatten_tree(&Tree::Leaf(a));
    assert_eq!(flat.len(), 1);
    assert!(same_cell(&flat[0], &a));
}

#[test]
fn level_of_a_tree_is_pruned() {
    let a = cell(Some(Direction::xp()), (0, 0, 0), (1, 1, 1));
    let b = cell(Some(Direction::xn()), (1, 0, 0), (2, 1, 1));
    let c = cell(Some(Direction::yn()), (0, 1, 0), (2, 2, 1));
    let d = cell(None, (0, 0, 1), (2, 2, 2));
    let tree = node(node(node(Tree::Leaf(a), Tree::Leaf(b)), Tree::Leaf(c)), Tree::Leaf(d));
    assert_eq!(level_from_tree(&tree), vec![gblock_to_block(&c).unwrap()]);
}

#[test]
fn level_of_a_tree_without_locks_keeps_every_block() {
    let a = cell(Some(Direction::xn()), (0, 0, 0), (1, 1, 1));
    let b = cell(Some(Direction::xp()), (1, 0, 0), (2, 1, 1));
    let tree = node(Tree::Leaf(a), Tree::Leaf(b));
    assert_eq!(
        level_from_tree(&tree),
        vec![gblock_to_block(&a).unwrap(), gblock_to_block(&b).unwrap()]
    );
}

#[test]
fn generated_tree_has_leaves_of_block_size() {
    let mut rng = rand::rng();
    for side in 1..6 {
        for _ in 0..20 {
            let cells = flatten_tree(&gen_tree(&mut rng, cube(side)));
            for g in cells.iter() {
                assert!(is_unit_or_domino(extent(g)));
            }
        }
    }
}

#[test]
fn generated_tree_tiles_its_seed() {
    let mut rng = rand::rng();
    for _ in 0..20 {
        let seed = Seed::new((-2, 3), (1, 4), (0, 2));
        let cells = flatten_tree(&gen_tree(&mut rng, seed));
        let volume: i32 = cells
            .iter()
            .map(|g| {
                let e = extent(g);
                e.0 * e.1 * e.2
            })
            .sum();
        assert_eq!(volume, 5 * 3 * 2);
        for x in -3..5 {
            for y in 0..6 {
                for z in -1..4 {
                    let inside = -2 <= x && x < 3 && 1 <= y && y < 4 && 0 <= z && z < 2;
                    assert_eq!(covering(&cells, (x, y, z)), if inside { 1 } else { 0 });
                }
            }
        }
    }
}

#[test]
fn generated_tree_of_one_cell_is_a_leaf() {
    let mut rng = rand::rng();
    for _ in 0..20 {
        let cells = flatten_tree(&gen_tree(&mut rng, cube(1)));
        assert_eq!(cells.len(), 1);
        assert_eq!((cells[0].min, cells[0].max), (IVec3::new(0, 0, 0), IVec3::new(1, 1, 1)));
    }
}

#[test]
fn generated_trees_differ() {
    let mut rng = rand::rng();
    let first = flatten_tree(&gen_tree(&mut rng, cube(4)));
    let mut differs = false;
    for _ in 0..50 {
        let next = flatten_tree(&gen_tree(&mut rng, cube(4)));
        if next.len() != first.len()
            || next.iter().zip(first.iter()).any(|(a, b)| !same_cell(a, b))
        {
            differs = true;
        }
    }
    assert!(differs);
}

#[test]
fn generated_level_holds_valid_blocks_inside_the_cube() {
    for side in 1..6u8 {
        for _ in 0..10 {
            let level = generate_level(side);
            for b in level.iter() {
                assert!(b.is_valid());
                assert!(0 <= b.min.x && b.max.x <= side as i32);
                assert!(0 <= b.min.y && b.max.y <= side as i32);
                assert!(0 <= b.min.z && b.max.z <= side as i32);
            }
        }
    }
}

#[test]
fn generated_level_has_no_overlapping_blocks() {
    for _ in 0..10 {
        let level = generate_level(4);
        for (i, a) in level.iter().enumerate() {
            for b in level.iter().skip(i + 1) {
                let apart = a.max.x <= b.min.x
                    || b.max.x <= a.min.x
                    || a.max.y <= b.min.y
                    || b.max.y <= a.min.y
                    || a.max.z <= b.min.z
                    || b.max.z <= a.min.z;
                assert!(apart);
            }
        }
    }
}

#[test]
fn generated_level_has_no_locked_line() {
    for _ in 0..10 {
        let level = generate_level(4);
        for axis in Axis::ALL {
            for u in 0..4 {
                for v in 0..4 {
                    let line = extract_along_line(&axis, IVec2::new(u, v), &level);
                    assert_eq!(locked_blocks_to_remove(&line), vec![]);
                }
            }
        }
    }
}

#[test]
fn generated_level_is_left_alone_by_a_second_pruning() {
    for _ in 0..10 {
        let level = generate_level(5);
        let mut again = level.clone();
        remove_locked(&mut again);
        assert_eq!(again, level);
    }
}

#[test]
fn level_of_side_zero_is_refused() {
    assert_eq!(try_generate_level(0), Err(GenerationError::InvalidSeedWidth));
}

#[test]
fn level_of_a_positive_side_is_generated() {
    for side in [1u8, 3, 255] {
        if side < 10 {
            let level = try_generate_level(side).unwrap();
            assert!(level.iter().all(|b| b.is_valid()));
        }
    }
    assert!(try_generate_level(1).is_ok());
}

#[test]
fn tree_of_a_malformed_seed_is_refused() {
    let mut rng = rand::rng();
    for seed in [
        cube(0),
        Seed::new((0, 2), (3, 3), (0, 2)),
        Seed::new((0, 2), (0, 2), (5, 1)),
        Seed::new((i32::MIN, 1), (0, 1), (0, 1)),
    ] {
        assert!(matches!(try_gen_tree(&mut rng, seed), Err(GenerationError::InvalidSeedWidth)));
    }
}

#[test]
fn tree_of_a_well_formed_seed_is_grown() {
    let mut rng = rand::rng();
    let tree = try_gen_tree(&mut rng, Seed::new((0, 2), (0, 1), (0, 1))).ok().unwrap();
    let cells = flatten_tree(&tree);
    assert!(cells.len() == 1 || cells.len() == 2);
    let volume: i32 = cells.iter().map(|g| extent(g).0 * extent(g).1 * extent(g).2).sum();
    assert_eq!(volume, 2);
}
