use fish_feeding::geometry::{within, Position, COORD_MAX, UNIT};

#[test]
fn within_is_strict() {
    let a = Position::new(0, 0);
    let b = Position::new(3, 4);
    assert!(!within(a, b, 5));
    assert!(within(a, b, 6));
    assert!(!within(a, b, 4));
}

#[test]
fn within_is_symmetric_and_ignores_direction() {
    let a = Position::new(-7 * UNIT, 2 * UNIT);
    let b = Position::new(5 * UNIT, -3 * UNIT);
    // distance is 13 units
    assert!(!within(a, b, 13 * UNIT));
    assert!(!within(b, a, 13 * UNIT));
    assert!(within(a, b, 13 * UNIT + 1));
    assert!(within(b, a, 13 * UNIT + 1));
}

#[test]
fn a_point_is_within_any_positive_radius_of_itself() {
    let a = Position::new(12, -9);
    assert!(within(a, a, 1));
    assert!(!within(a, a, 0));
    assert!(!within(a, a, -5));
}

#[test]
fn diagonal_distance_is_not_taken_for_the_larger_side() {
    let a = Position::new(0, 0);
    let b = Position::new(12 * UNIT, 12 * UNIT);
    // each side is below 16 units, the distance is about 16.97
    assert!(!within(a, b, 16 * UNIT));
    assert!(within(a, b, 17 * UNIT));
}

#[test]
fn within_works_at_the_ends_of_the_integers() {
    let a = Position::new(i64::MIN, i64::MIN);
    let b = Position::new(i64::MAX, i64::MAX);
    assert!(!within(a, b, i64::MAX));
    assert!(within(a, a, i64::MAX));
    let c = Position::new(i64::MAX - 1, i64::MAX);
    assert!(within(b, c, 2));
    assert!(!within(b, c, 1));
    let d = Position::new(0, i64::MAX);
    let e = Position::new(i64::MAX - 1, i64::MAX);
    assert!(within(d, e, i64::MAX));
    assert!(!within(d, b, i64::MAX));
}

#[test]
fn in_range_bounds_are_inclusive() {
    assert!(Position::new(COORD_MAX, -COORD_MAX).in_range());
    assert!(!Position::new(COORD_MAX + 1, 0).in_range());
    assert!(!Position::new(0, -COORD_MAX - 1).in_range());
    assert!(Position::new(0, 0).in_range());
}
