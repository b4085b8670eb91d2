use slide_blocks::block::{Axis, Direction};
use slide_blocks::vector::IVec3;

#[test]
fn axis_cycle_is_right_handed() {
    assert_eq!(Axis::X.next_rh(), Axis::Y);
    assert_eq!(Axis::Y.next_rh(), Axis::Z);
    assert_eq!(Axis::Z.next_rh(), Axis::X);
}

#[test]
fn axis_lists_hold_the_expected_axes() {
    assert_eq!(Axis::ALL, [Axis::X, Axis::Y, Axis::Z]);
    assert_eq!(Axis::NOX, [Axis::Y, Axis::Z]);
    assert_eq!(Axis::NOY, [Axis::Z, Axis::X]);
    assert_eq!(Axis::NOZ, [Axis::X, Axis::Y]);
}

#[test]
fn cross_is_zero_on_equal_axes() {
    for a in Axis::ALL {
        assert_eq!(a.cross(&a), 0);
    }
}

#[test]
fn cross_follows_the_right_hand_rule() {
    assert_eq!(Axis::X.cross(&Axis::Y), 1);
    assert_eq!(Axis::Y.cross(&Axis::Z), 1);
    assert_eq!(Axis::Z.cross(&Axis::X), 1);
    assert_eq!(Axis::Y.cross(&Axis::X), -1);
    assert_eq!(Axis::Z.cross(&Axis::Y), -1);
    assert_eq!(Axis::X.cross(&Axis::Z), -1);
}

#[test]
fn cross_is_antisymmetric() {
    for a in Axis::ALL {
        for b in Axis::ALL {
            assert_eq!(a.cross(&b), -b.cross(&a));
        }
    }
}

#[test]
fn remaining_gives_the_third_axis() {
    assert_eq!(Axis::X.remaining(&Axis::Y), Some(Axis::Z));
    assert_eq!(Axis::Y.remaining(&Axis::X), Some(Axis::Z));
    assert_eq!(Axis::Y.remaining(&Axis::Z), Some(Axis::X));
    assert_eq!(Axis::Z.remaining(&Axis::Y), Some(Axis::X));
    assert_eq!(Axis::Z.remaining(&Axis::X), Some(Axis::Y));
    assert_eq!(Axis::X.remaining(&Axis::Z), Some(Axis::Y));
}

#[test]
fn remaining_of_an_axis_with_itself_is_none() {
    for a in Axis::ALL {
        assert_eq!(a.remaining(&a), None);
    }
}

#[test]
fn remaining_two_are_the_orthogonal_axes() {
    assert_eq!(Axis::X.remaining_two(), [Axis::Y, Axis::Z]);
    assert_eq!(Axis::Y.remaining_two(), [Axis::Z, Axis::X]);
    assert_eq!(Axis::Z.remaining_two(), [Axis::X, Axis::Y]);
}

#[test]
fn axis_unit_vectors() {
    assert_eq!(Axis::X.unit_vector(), IVec3::new(1, 0, 0));
    assert_eq!(Axis::Y.unit_vector(), IVec3::new(0, 1, 0));
    assert_eq!(Axis::Z.unit_vector(), IVec3::new(0, 0, 1));
}

#[test]
fn component_along_an_axis() {
    let v = IVec3::new(7, -8, 9);
    assert_eq!(Axis::X.ivec3_component(v), 7);
    assert_eq!(Axis::Y.ivec3_component(v), -8);
    assert_eq!(Axis::Z.ivec3_component(v), 9);
}

#[test]
fn with_component_replaces_one_coordinate() {
    let v = IVec3::new(7, -8, 9);
    assert_eq!(Axis::X.with_component(v, 1), IVec3::new(1, -8, 9));
    assert_eq!(Axis::Y.with_component(v, 1), IVec3::new(7, 1, 9));
    assert_eq!(Axis::Z.with_component(v, 1), IVec3::new(7, -8, 1));
}

#[test]
fn the_six_directions() {
    assert_eq!(Direction::xp(), Direction { axis: Axis::X, positive: true });
    assert_eq!(Direction::xn(), Direction { axis: Axis::X, positive: false });
    assert_eq!(Direction::yp(), Direction { axis: Axis::Y, positive: true });
    assert_eq!(Direction::yn(), Direction { axis: Axis::Y, positive: false });
    assert_eq!(Direction::zp(), Direction { axis: Axis::Z, positive: true });
    assert_eq!(Direction::zn(), Direction { axis: Axis::Z, positive: false });
    assert_eq!(Direction::new(Axis::Y, false), Direction::yn());
}

#[test]
fn direction_sign() {
    assert_eq!(Direction::xp().sign(), 1);
    assert_eq!(Direction::zn().sign(), -1);
}

#[test]
fn direction_unit_vectors() {
    assert_eq!(Direction::xp().unit_vector(), IVec3::new(1, 0, 0));
    assert_eq!(Direction::xn().unit_vector(), IVec3::new(-1, 0, 0));
    assert_eq!(Direction::yp().unit_vector(), IVec3::new(0, 1, 0));
    assert_eq!(Direction::yn().unit_vector(), IVec3::new(0, -1, 0));
    assert_eq!(Direction::zp().unit_vector(), IVec3::new(0, 0, 1));
    assert_eq!(Direction::zn().unit_vector(), IVec3::new(0, 0, -1));
}
