use logicsider::geometry::Vec2;
use logicsider::input::Input;
use logicsider::int_angle::IntAngle;

#[test]
fn normalize_reduces_modulo_four() {
    assert_eq!(IntAngle(5).normalize(), IntAngle(1));
    assert_eq!(IntAngle(-1).normalize(), IntAngle(3));
    assert_eq!(IntAngle(-4).normalize(), IntAngle(0));
    assert_eq!(IntAngle(i32::MIN).normalize(), IntAngle(0));
}

#[test]
fn directions() {
    assert!(IntAngle(0).is_right());
    assert!(IntAngle(5).is_up());
    assert!(IntAngle(-2).is_left());
    assert!(IntAngle(-1).is_down());
    assert!(!IntAngle(-1).is_up());
}

#[test]
fn opposite_and_rotations() {
    assert_eq!(IntAngle(1).opposite(), IntAngle(3));
    assert_eq!(IntAngle(3).rotate_counter_clockwise(), IntAngle(4));
    assert_eq!(IntAngle(0).rotate_clockwise(), IntAngle(-1));
    assert_eq!(IntAngle(i32::MAX).rotate_counter_clockwise(), IntAngle(i32::MIN));
    assert_eq!(IntAngle(2).with_input(Input::Left), IntAngle(3));
    assert_eq!(IntAngle(2).with_input(Input::Right), IntAngle(1));
    assert_eq!(IntAngle(2).with_input(Input::Skip), IntAngle(2));
    assert_eq!(IntAngle(2).add_input(Input::Left), IntAngle(3));
}

#[test]
fn vectors() {
    assert_eq!(IntAngle(0).to_vec(), Vec2 { x: 1, y: 0 });
    assert_eq!(IntAngle(1).to_vec(), Vec2 { x: 0, y: 1 });
    assert_eq!(IntAngle(6).to_vec(), Vec2 { x: -1, y: 0 });
    assert_eq!(IntAngle(-1).to_vec(), Vec2 { x: 0, y: -1 });
    let p = Vec2 { x: 2, y: 1 };
    assert_eq!(IntAngle(0).rotate_vec(p), Vec2 { x: 2, y: 1 });
    assert_eq!(IntAngle(1).rotate_vec(p), Vec2 { x: -1, y: 2 });
    assert_eq!(IntAngle(2).rotate_vec(p), Vec2 { x: -2, y: -1 });
    assert_eq!(IntAngle(3).rotate_vec(p), Vec2 { x: 1, y: -2 });
}

#[test]
fn from_vectors() {
    assert_eq!(IntAngle::try_from_vec(Vec2 { x: -5, y: 0 }), Some(IntAngle(2)));
    assert_eq!(IntAngle::try_from_vec(Vec2 { x: 3, y: 0 }), Some(IntAngle(0)));
    assert_eq!(IntAngle::try_from_vec(Vec2 { x: 0, y: 7 }), Some(IntAngle(1)));
    assert_eq!(IntAngle::try_from_vec(Vec2 { x: 0, y: -1 }), Some(IntAngle(3)));
    assert_eq!(IntAngle::try_from_vec(Vec2 { x: 1, y: 1 }), None);
    assert_eq!(IntAngle::try_from_vec(Vec2 { x: 0, y: 0 }), None);
    assert_eq!(IntAngle::from_vec(Vec2 { x: 0, y: 2 }), IntAngle(1));
}

#[test]
fn vec_roundtrip_law() {
    for a in -8..8 {
        let angle = IntAngle(a);
        assert_eq!(IntAngle::try_from_vec(angle.to_vec()), Some(angle.normalize()));
    }
}

#[test]
fn input_signs() {
    assert_eq!(Input::from_sign(-7), Input::Left);
    assert_eq!(Input::from_sign(0), Input::Skip);
    assert_eq!(Input::from_sign(3), Input::Right);
    assert_eq!(Input::Left.delta(), -1);
    assert_eq!(Input::Skip.delta(), 0);
    assert_eq!(Input::Right.delta(), 1);
    for input in [Input::Left, Input::Skip, Input::Right] {
        assert_eq!(Input::from_sign(input.delta()), input);
    }
}
