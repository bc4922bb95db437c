use crabots::space::rem_repeat_to_interval;
use crabots::space::CanFitInSize;
use crabots::space::GridConstraints;
use crabots::space::HorizontalCylinderSpace;
use crabots::space::InfiniteSpace;
use crabots::space::RectSpace;
use crabots::space::TorusSpace;
use crabots::space::Vec2i;
use crabots::space::VerticalCylinderSpace;

#[test]
fn interval_wraps_from_both_sides() {
    assert_eq!(rem_repeat_to_interval(&0, &3, &10), 3);
    assert_eq!(rem_repeat_to_interval(&0, &10, &10), 0);
    assert_eq!(rem_repeat_to_interval(&0, &25, &10), 5);
    assert_eq!(rem_repeat_to_interval(&0, &-1, &10), 9);
    assert_eq!(rem_repeat_to_interval(&0, &-10, &10), 0);
    assert_eq!(rem_repeat_to_interval(&0, &-11, &10), 9);
    assert_eq!(rem_repeat_to_interval(&0, &0, &10), 0);
    assert_eq!(rem_repeat_to_interval(&0, &9, &10), 9);
}

#[test]
fn interval_with_a_lower_bound_other_than_zero() {
    assert_eq!(rem_repeat_to_interval(&2, &1, &5), 4);
    assert_eq!(rem_repeat_to_interval(&2, &5, &5), 2);
    assert_eq!(rem_repeat_to_interval(&2, &-1, &5), 2);
    assert_eq!(rem_repeat_to_interval(&-3, &4, &3), -2);
}

#[test]
fn interval_at_the_limits_of_the_integers() {
    assert_eq!(rem_repeat_to_interval(&0, &i32::MIN, &10), 2);
    assert_eq!(rem_repeat_to_interval(&0, &i32::MAX, &10), 7);
    assert_eq!(rem_repeat_to_interval(&i32::MIN, &0, &i32::MAX), 0);
    assert_eq!(rem_repeat_to_interval(&i32::MIN, &i32::MAX, &i32::MAX), i32::MIN);
    assert_eq!(rem_repeat_to_interval(&0, &i32::MIN, &1), 0);
}

#[test]
fn rect_admits_only_its_rectangle() {
    let s = RectSpace::new(&Vec2i::new(4, 3));
    assert!(s.can(&Vec2i::new(0, 0)));
    assert!(s.can(&Vec2i::new(3, 2)));
    assert!(!s.can(&Vec2i::new(4, 0)));
    assert!(!s.can(&Vec2i::new(0, 3)));
    assert!(!s.can(&Vec2i::new(-1, 0)));
    assert!(!s.can(&Vec2i::new(0, -1)));
    assert_eq!(s.remap(&Vec2i::new(3, 2)), Vec2i::new(3, 2));
    assert_eq!(s.get_size(), Vec2i::new(4, 3));
    assert!(!s.is_repeat_x());
    assert!(!s.is_repeat_y());
    assert!(s.is_finite());
}

#[test]
fn torus_wraps_both_axes() {
    let s = TorusSpace::new(&Vec2i::new(4, 3));
    assert!(s.can(&Vec2i::new(-100, 100)));
    assert_eq!(s.remap(&Vec2i::new(4, 3)), Vec2i::new(0, 0));
    assert_eq!(s.remap(&Vec2i::new(-1, -1)), Vec2i::new(3, 2));
    assert_eq!(s.remap(&Vec2i::new(9, -7)), Vec2i::new(1, 2));
    assert!(s.is_repeat_x());
    assert!(s.is_repeat_y());
    assert!(s.is_finite());
}

#[test]
fn vertical_cylinder_wraps_y_only() {
    let s = VerticalCylinderSpace::new(&Vec2i::new(4, 3));
    assert!(s.can(&Vec2i::new(3, 100)));
    assert!(!s.can(&Vec2i::new(4, 0)));
    assert!(!s.can(&Vec2i::new(-1, 0)));
    assert_eq!(s.remap(&Vec2i::new(2, 3)), Vec2i::new(2, 0));
    assert_eq!(s.remap(&Vec2i::new(2, -1)), Vec2i::new(2, 2));
    assert!(!s.is_repeat_x());
    assert!(s.is_repeat_y());
    assert!(s.is_finite());
}

#[test]
fn horizontal_cylinder_wraps_x_only() {
    let s = HorizontalCylinderSpace::new(&Vec2i::new(4, 3));
    assert!(s.can(&Vec2i::new(100, 2)));
    assert!(!s.can(&Vec2i::new(0, 3)));
    assert!(!s.can(&Vec2i::new(0, -1)));
    assert_eq!(s.remap(&Vec2i::new(4, 1)), Vec2i::new(0, 1));
    assert_eq!(s.remap(&Vec2i::new(-1, 1)), Vec2i::new(3, 1));
    assert!(s.is_repeat_x());
    assert!(!s.is_repeat_y());
    assert!(s.is_finite());
}

#[test]
fn infinite_space_admits_everything_and_moves_nothing() {
    let s = InfiniteSpace;
    let far = Vec2i::new(i32::MIN, i32::MAX);
    assert!(s.can(&far));
    assert_eq!(s.remap(&far), far);
    assert!(!s.is_repeat_x());
    assert!(!s.is_repeat_y());
    assert!(!s.is_finite());
}

#[test]
fn remap_twice_is_remap_once() {
    let torus = TorusSpace::new(&Vec2i::new(7, 5));
    let vertical = VerticalCylinderSpace::new(&Vec2i::new(7, 5));
    let horizontal = HorizontalCylinderSpace::new(&Vec2i::new(7, 5));
    for x in -20..20 {
        for y in -20..20 {
            let p = Vec2i::new(x, y);
            let once = torus.remap(&p);
            assert_eq!(torus.remap(&once), once);
            assert!(0 <= once.x && once.x < 7 && 0 <= once.y && once.y < 5);
            if vertical.can(&p) {
                let once = vertical.remap(&p);
                assert!(vertical.can(&once));
                assert_eq!(vertical.remap(&once), once);
            }
            if horizontal.can(&p) {
                let once = horizontal.remap(&p);
                assert!(horizontal.can(&once));
                assert_eq!(horizontal.remap(&once), once);
            }
        }
    }
}

#[test]
fn keys_and_cells_correspond() {
    assert_eq!(Vec2i::new(0, 0).key(), 9223372039002259456);
    assert_eq!(Vec2i::new(-1, 5).key(), 9223372034707292165);
    assert_eq!(Vec2i::new(i32::MAX, i32::MAX).key(), u64::MAX);
    assert_eq!(Vec2i::new(i32::MIN, i32::MIN).key(), 0);
    assert_eq!(Vec2i::from_key(9223372034707292165), Vec2i::new(-1, 5));
    assert_eq!(Vec2i::from_key(0), Vec2i::new(i32::MIN, i32::MIN));
    assert_eq!(Vec2i::from_key(u64::MAX), Vec2i::new(i32::MAX, i32::MAX));
}

#[test]
fn keys_order_by_x_then_y() {
    assert!(Vec2i::new(-3, 9).key() < Vec2i::new(-2, -9).key());
    assert!(Vec2i::new(1, 2).key() < Vec2i::new(1, 3).key());
    assert!(Vec2i::new(1, -1).key() < Vec2i::new(1, 0).key());
}
