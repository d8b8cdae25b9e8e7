use fish_feeding::geometry::Position;
use fish_feeding::prop::{Prop, PropFamily};
use fish_feeding::rules::Rules;
use fish_feeding::timer::TimerMode;

#[test]
fn new_plant_shows_its_first_frame() {
    let rules = Rules::standard();
    let p = Prop::new(Position::new(3, 4), PropFamily::TallAlga, &rules);
    assert_eq!(p.frame, 0);
    assert_eq!(p.position, Position::new(3, 4));
    assert_eq!(p.family, PropFamily::TallAlga);
    assert_eq!(p.cycle.duration, 500_000_000);
    assert_eq!(p.cycle.elapsed, 0);
    assert_eq!(p.cycle.mode, TimerMode::Once);
    assert!(p.is_valid());
}

#[test]
fn both_families_have_two_frames() {
    assert_eq!(PropFamily::SmallAlga.frame_count(), 2);
    assert_eq!(PropFamily::TallAlga.frame_count(), 2);
}

#[test]
fn plant_changes_frame_when_its_timer_runs_out() {
    let rules = Rules::standard();
    let mut p = Prop::new(Position::new(0, 0), PropFamily::SmallAlga, &rules);
    p.animate(499_999_999);
    assert_eq!(p.frame, 0);
    assert_eq!(p.cycle.elapsed, 499_999_999);
    p.animate(1);
    assert_eq!(p.frame, 1);
    assert_eq!(p.cycle.elapsed, 0);
    p.animate(250_000_000);
    assert_eq!(p.frame, 1);
    p.animate(250_000_000);
    assert_eq!(p.frame, 0);
    assert_eq!(p.cycle.elapsed, 0);
}

#[test]
fn plant_changes_one_frame_per_step_however_long_the_step() {
    let rules = Rules::standard();
    let mut p = Prop::new(Position::new(0, 0), PropFamily::SmallAlga, &rules);
    p.animate(10_000_000_000);
    assert_eq!(p.frame, 1);
    assert_eq!(p.cycle.elapsed, 0);
}

#[test]
fn plant_never_moves() {
    let rules = Rules::standard();
    let mut p = Prop::new(Position::new(77, -5), PropFamily::TallAlga, &rules);
    for _ in 0..100 {
        p.animate(123_456_789);
        assert_eq!(p.position, Position::new(77, -5));
        assert!(p.frame < 2);
    }
}

#[test]
fn frame_outside_the_family_is_not_valid() {
    let rules = Rules::standard();
    let mut p = Prop::new(Position::new(0, 0), PropFamily::SmallAlga, &rules);
    p.frame = 2;
    assert!(!p.is_valid());
    p.frame = u32::MAX;
    p.animate(1_000_000_000);
    assert_eq!(p.frame, 0);
}
