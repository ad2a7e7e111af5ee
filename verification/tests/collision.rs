//! Tests of the axis-aligned collision primitive and the direction
//! classifier.  All coordinates are fixed-point units (3600 per world
//! unit).

use platformer_core::check_collision;
use platformer_core::Direction;
use platformer_core::Vec2;

fn v(x: i64, y: i64) -> Vec2 {
    Vec2 { x, y }
}

#[test]
fn separated_boxes_have_no_offset() {
    // unit boxes two units apart
    let r = check_collision(&v(0, 0), &v(3600, 3600), &v(7200, 0), &v(3600, 3600));
    assert!(r.is_none());
}

#[test]
fn flush_boxes_do_not_collide() {
    // half-open test: exactly flush edges do not count as overlap
    let r = check_collision(&v(0, 0), &v(3600, 3600), &v(3600, 0), &v(3600, 3600));
    assert!(r.is_none());
    let r = check_collision(&v(0, 0), &v(3600, 3600), &v(0, 3600), &v(3600, 3600));
    assert!(r.is_none());
}

#[test]
fn overlap_resolves_on_axis_of_least_correction() {
    // box 2 sits 5/6 of a unit above box 1: y-penetration 600, x aligned
    let r = check_collision(&v(0, 0), &v(3600, 3600), &v(0, 3000), &v(3600, 3600));
    assert_eq!(r, Some(v(0, -600)));
    // box 2 overlaps from the right: x-penetration 900, y aligned
    let r = check_collision(&v(0, 0), &v(3600, 3600), &v(2700, 0), &v(3600, 3600));
    assert_eq!(r, Some(v(-900, 0)));
}

#[test]
fn offset_has_exactly_one_nonzero_component() {
    // a diagonal overlap still resolves along a single axis
    let r = check_collision(&v(0, 0), &v(3600, 3600), &v(2700, 3000), &v(3600, 3600));
    let off = r.unwrap();
    assert!((off.x == 0) != (off.y == 0));
}

#[test]
fn applying_offset_separates_boxes() {
    let p1 = v(0, 0);
    let s1 = v(3600, 3600);
    let p2 = v(2700, 100);
    let s2 = v(3600, 3600);
    let off = check_collision(&p1, &s1, &p2, &s2).unwrap();
    let moved = v(p1.x + off.x, p1.y + off.y);
    assert!(check_collision(&moved, &s1, &p2, &s2).is_none());
}

#[test]
fn zero_x_penetration_forces_y_resolution() {
    // boxes flush on x (centres aligned) but deeply overlapping on y:
    // y is resolved even though its correction is the larger one
    let r = check_collision(&v(0, 0), &v(3600, 3600), &v(0, 300), &v(3600, 3600));
    assert_eq!(r, Some(v(0, -3300)));
}

#[test]
fn coincident_centers_degenerate_to_zero_offset() {
    let r = check_collision(&v(0, 0), &v(3600, 3600), &v(0, 0), &v(3600, 3600));
    assert_eq!(r, Some(v(0, 0)));
}

#[test]
fn from_vector_classifies_by_dominant_axis() {
    assert_eq!(Direction::from_vector(&v(5, 2)), Direction::Right);
    assert_eq!(Direction::from_vector(&v(-5, 2)), Direction::Left);
    assert_eq!(Direction::from_vector(&v(2, 5)), Direction::Up);
    assert_eq!(Direction::from_vector(&v(2, -5)), Direction::Down);
    // ties go to the y axis
    assert_eq!(Direction::from_vector(&v(5, 5)), Direction::Up);
    assert_eq!(Direction::from_vector(&v(5, -5)), Direction::Down);
    assert_eq!(Direction::from_vector(&v(0, 0)), Direction::Down);
}

#[test]
fn invert_swaps_opposite_sides() {
    assert_eq!(Direction::Left.invert(), Direction::Right);
    assert_eq!(Direction::Right.invert(), Direction::Left);
    assert_eq!(Direction::Up.invert(), Direction::Down);
    assert_eq!(Direction::Down.invert(), Direction::Up);
}
