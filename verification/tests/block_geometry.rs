use slide_blocks::block::{check_overlap_in_direction, Axis, Block, BlockShape, Direction};
use slide_blocks::vector::IVec3;

fn block(direction: Direction, min: (i32, i32, i32), max: (i32, i32, i32)) -> Block {
    Block { direction, min: IVec3::new(min.0, min.1, min.2), max: IVec3::new(max.0, max.1, max.2) }
}

fn unit(direction: Direction, x: i32, y: i32, z: i32) -> Block {
    block(direction, (x, y, z), (x + 1, y + 1, z + 1))
}

#[test]
fn integer_size_is_max_minus_min() {
    let b = block(Direction::xp(), (1, -2, 3), (3, -1, 4));
    assert_eq!(b.get_isize(), IVec3::new(2, 1, 1));
}

#[test]
fn elongation_of_each_shape() {
    assert_eq!(unit(Direction::xp(), 0, 0, 0).get_elongation(), None);
    assert_eq!(block(Direction::xp(), (0, 0, 0), (2, 1, 1)).get_elongation(), Some(Axis::X));
    assert_eq!(block(Direction::xp(), (0, 0, 0), (1, 2, 1)).get_elongation(), Some(Axis::Y));
    assert_eq!(block(Direction::xp(), (0, 0, 0), (1, 1, 2)).get_elongation(), Some(Axis::Z));
}

#[test]
fn elongation_of_other_boxes_is_none() {
    assert_eq!(block(Direction::xp(), (0, 0, 0), (2, 2, 1)).get_elongation(), None);
    assert_eq!(block(Direction::xp(), (0, 0, 0), (3, 1, 1)).get_elongation(), None);
    assert_eq!(block(Direction::xp(), (0, 0, 0), (0, 1, 1)).get_elongation(), None);
    assert_eq!(
        block(Direction::xp(), (i32::MAX, 0, 0), (i32::MIN, 1, 1)).get_elongation(),
        None
    );
}

#[test]
fn validity_of_blocks() {
    assert!(unit(Direction::zn(), 5, 5, 5).is_valid());
    assert!(block(Direction::zn(), (0, 0, 0), (1, 2, 1)).is_valid());
    assert!(!block(Direction::zn(), (0, 0, 0), (2, 2, 1)).is_valid());
    assert!(!block(Direction::zn(), (0, 0, 0), (3, 1, 1)).is_valid());
    assert!(!block(Direction::zn(), (1, 0, 0), (0, 1, 1)).is_valid());
    assert!(!block(Direction::zn(), (0, 0, 0), (1, 1, 0)).is_valid());
}

#[test]
fn corner_pair_of_a_block() {
    let b = block(Direction::yn(), (1, 2, 3), (2, 4, 4));
    assert_eq!(b.extract_mm(), (IVec3::new(1, 2, 3), IVec3::new(2, 4, 4)));
}

#[test]
fn blocks_are_equal_by_direction_and_corners() {
    let a = unit(Direction::xp(), 0, 0, 0);
    assert_eq!(a, unit(Direction::xp(), 0, 0, 0));
    assert_ne!(a, unit(Direction::xn(), 0, 0, 0));
    assert_ne!(a, unit(Direction::xp(), 0, 0, 1));
    assert_ne!(a, block(Direction::xp(), (0, 0, 0), (2, 1, 1)));
}

#[test]
fn lane_overlap_ignores_the_travel_axis() {
    let a = unit(Direction::xp(), 0, 0, 0);
    let far = unit(Direction::xp(), 100, 0, 0);
    assert!(check_overlap_in_direction(&a, &far, &Direction::xp()));
    assert!(check_overlap_in_direction(&a, &far, &Direction::xn()));
    assert!(!check_overlap_in_direction(&a, &far, &Direction::yp()));
    assert!(!check_overlap_in_direction(&a, &far, &Direction::zp()));
}

#[test]
fn lane_overlap_needs_positive_area() {
    let a = unit(Direction::zp(), 0, 0, 0);
    let beside = unit(Direction::zp(), 1, 0, 7);
    let diagonal = unit(Direction::zp(), 1, 1, 7);
    let wide = block(Direction::zp(), (0, 0, 7), (2, 1, 8));
    assert!(!check_overlap_in_direction(&a, &beside, &Direction::zp()));
    assert!(!check_overlap_in_direction(&a, &diagonal, &Direction::zp()));
    assert!(check_overlap_in_direction(&a, &wide, &Direction::zp()));
    assert!(check_overlap_in_direction(&beside, &wide, &Direction::zp()));
}

#[test]
fn lane_overlap_along_each_axis() {
    let a = block(Direction::xp(), (0, 0, 0), (1, 2, 1));
    let b = unit(Direction::xp(), 0, 1, 5);
    assert!(!check_overlap_in_direction(&a, &b, &Direction::xp()));
    assert!(!check_overlap_in_direction(&a, &b, &Direction::yp()));
    assert!(check_overlap_in_direction(&a, &b, &Direction::zp()));
}

#[test]
fn lane_overlap_takes_corners_in_either_order() {
    let a = unit(Direction::xp(), 0, 0, 0);
    let swapped = block(Direction::xp(), (5, 1, 1), (6, 0, 0));
    assert!(check_overlap_in_direction(&a, &swapped, &Direction::xp()));
}

#[test]
fn possible_collision_is_irreflexive() {
    for b in [
        unit(Direction::xp(), 0, 0, 0),
        unit(Direction::zn(), 3, -2, 9),
        block(Direction::yp(), (0, 0, 0), (1, 2, 1)),
        block(Direction::yp(), (0, 0, 0), (0, 0, 0)),
    ] {
        assert!(!b.possible_collision(&b));
    }
}

#[test]
fn possible_collision_needs_the_other_block_ahead() {
    let mover = unit(Direction::xp(), 5, 0, 0);
    assert!(mover.possible_collision(&unit(Direction::xp(), 6, 0, 0)));
    assert!(mover.possible_collision(&unit(Direction::yn(), 60, 0, 0)));
    assert!(!mover.possible_collision(&unit(Direction::xp(), 4, 0, 0)));
    assert!(!mover.possible_collision(&unit(Direction::xp(), 0, 0, 0)));
    assert!(!mover.possible_collision(&unit(Direction::xn(), 5, 0, 0)));
}

#[test]
fn possible_collision_needs_a_whole_unit_ahead() {
    let mover = unit(Direction::xp(), 0, 0, 0);
    let half_ahead = block(Direction::xp(), (0, 0, 0), (2, 1, 1));
    let one_ahead = unit(Direction::xp(), 1, 0, 0);
    assert!(!mover.possible_collision(&half_ahead));
    assert!(mover.possible_collision(&one_ahead));
}

#[test]
fn possible_collision_for_negative_directions() {
    let mover = unit(Direction::yn(), 0, 5, 0);
    assert!(mover.possible_collision(&unit(Direction::xp(), 0, 4, 0)));
    assert!(mover.possible_collision(&unit(Direction::xp(), 0, -40, 0)));
    assert!(!mover.possible_collision(&unit(Direction::xp(), 0, 6, 0)));
}

#[test]
fn possible_collision_needs_the_other_block_in_the_lane() {
    let mover = unit(Direction::zp(), 0, 0, 0);
    assert!(!mover.possible_collision(&unit(Direction::zp(), 1, 0, 4)));
    assert!(!mover.possible_collision(&unit(Direction::zp(), 0, -1, 4)));
    let half_aside = block(Direction::zp(), (0, 0, 4), (2, 1, 5));
    assert!(mover.possible_collision(&half_aside));
    let half_aside_on_both = block(Direction::zp(), (0, 0, 4), (2, 2, 5));
    assert!(mover.possible_collision(&half_aside_on_both));
}

#[test]
fn blocks_in_front_keep_their_order() {
    let mover = unit(Direction::xp(), 0, 0, 0);
    let a = unit(Direction::xp(), 7, 0, 0);
    let behind = unit(Direction::xp(), -3, 0, 0);
    let b = unit(Direction::yp(), 2, 0, 0);
    let aside = unit(Direction::yp(), 2, 3, 0);
    let all = [a, mover, behind, b, aside];
    assert_eq!(mover.get_blocks_in_front(&all), vec![a, b]);
    assert_eq!(mover.get_blocks_in_front(&[]), vec![]);
}

#[test]
fn nearest_block_in_front_is_the_closest() {
    let mover = unit(Direction::xp(), 0, 0, 0);
    let a = unit(Direction::xp(), 7, 0, 0);
    let b = unit(Direction::yp(), 2, 0, 0);
    let c = unit(Direction::yp(), 4, 0, 0);
    assert_eq!(mover.get_nearest_block_in_front(&[a, b, c]), Some(b));
    assert_eq!(mover.get_nearest_block_in_front(&[c, a]), Some(c));
}

#[test]
fn nearest_block_in_front_of_nothing_is_none() {
    let mover = unit(Direction::xp(), 0, 0, 0);
    let behind = unit(Direction::xp(), -3, 0, 0);
    let aside = unit(Direction::yp(), 2, 3, 0);
    assert_eq!(mover.get_nearest_block_in_front(&[]), None);
    assert_eq!(mover.get_nearest_block_in_front(&[mover, behind, aside]), None);
}

#[test]
fn nearest_block_in_front_takes_the_first_of_equals() {
    let mover = unit(Direction::xp(), 0, 0, 0);
    let a = unit(Direction::xp(), 3, 0, 0);
    let half_further = block(Direction::yp(), (3, 0, 0), (5, 1, 1));
    let beside = block(Direction::zp(), (3, 0, 0), (4, 2, 1));
    assert_eq!(mover.get_nearest_block_in_front(&[a, half_further, beside]), Some(a));
    assert_eq!(mover.get_nearest_block_in_front(&[half_further, a, beside]), Some(half_further));
    assert_eq!(mover.get_nearest_block_in_front(&[beside, half_further, a]), Some(beside));
}

#[test]
fn nearest_block_in_front_for_a_negative_direction() {
    let mover = unit(Direction::zn(), 0, 0, 10);
    let a = unit(Direction::xp(), 0, 0, 2);
    let b = unit(Direction::xp(), 0, 0, 6);
    let ahead_of_nothing = unit(Direction::xp(), 0, 0, 12);
    assert_eq!(mover.get_nearest_block_in_front(&[a, ahead_of_nothing, b]), Some(b));
}

#[test]
fn shape_of_a_block() {
    assert_eq!(unit(Direction::xp(), 0, 0, 0).shape(), BlockShape::Small);
    assert_eq!(block(Direction::xp(), (0, 0, 0), (2, 1, 1)).shape(), BlockShape::Long);
    assert_eq!(block(Direction::xn(), (0, 0, 0), (2, 1, 1)).shape(), BlockShape::Long);
    assert_eq!(block(Direction::xp(), (0, 0, 0), (1, 2, 1)).shape(), BlockShape::Wide);
    assert_eq!(block(Direction::zn(), (0, 0, 0), (1, 2, 1)).shape(), BlockShape::Wide);
    assert_eq!(block(Direction::zn(), (0, 0, 0), (1, 1, 2)).shape(), BlockShape::Long);
    assert_eq!(block(Direction::zn(), (0, 0, 0), (2, 2, 2)).shape(), BlockShape::Small);
}
