use fish_feeding::geometry::{Position, COORD_MAX, UNIT};
use fish_feeding::pellet::{Pellet, Pellets};
use fish_feeding::rules::Rules;

fn heights(pellets: &Pellets) -> Vec<i64> {
    pellets.items.iter().map(|p| p.position.y).collect()
}

fn ids(pellets: &Pellets) -> Vec<u64> {
    pellets.items.iter().map(|p| p.id).collect()
}

#[test]
fn spawn_numbers_pellets_in_order() {
    let mut pellets = Pellets::new();
    assert!(pellets.items.is_empty());
    assert_eq!(pellets.spawn(Position::new(5, 7)), Some(0));
    assert_eq!(pellets.spawn(Position::new(6, 8)), Some(1));
    assert_eq!(pellets.spawn(Position::new(5, 7)), Some(2));
    assert_eq!(
        pellets.items,
        vec![
            Pellet { id: 0, position: Position::new(5, 7) },
            Pellet { id: 1, position: Position::new(6, 8) },
            Pellet { id: 2, position: Position::new(5, 7) },
        ]
    );
    assert_eq!(pellets.next_id, 3);
    assert!(pellets.is_valid());
}

#[test]
fn spawn_gives_no_identity_twice_even_after_despawn() {
    let mut pellets = Pellets::new();
    let a = pellets.spawn(Position::new(0, 0)).unwrap();
    assert!(pellets.despawn(a));
    let b = pellets.spawn(Position::new(0, 0)).unwrap();
    assert_ne!(a, b);
}

#[test]
fn spawn_stops_when_identities_run_out() {
    let mut pellets = Pellets { items: Vec::new(), next_id: u64::MAX - 1 };
    assert_eq!(pellets.spawn(Position::new(1, 1)), Some(u64::MAX - 1));
    assert_eq!(pellets.spawn(Position::new(2, 2)), None);
    assert_eq!(pellets.items.len(), 1);
    assert_eq!(pellets.next_id, u64::MAX);
}

#[test]
fn advance_all_lowers_every_pellet_by_the_fall_speed() {
    let rules = Rules::standard();
    let mut pellets = Pellets::new();
    pellets.spawn(Position::new(10 * UNIT, 100 * UNIT));
    pellets.spawn(Position::new(20 * UNIT, 3 * UNIT));
    pellets.advance_all(1, &rules);
    assert_eq!(heights(&pellets), vec![99 * UNIT, 2 * UNIT]);
    pellets.advance_all(4, &rules);
    assert_eq!(heights(&pellets), vec![95 * UNIT, -2 * UNIT]);
    pellets.advance_all(0, &rules);
    assert_eq!(heights(&pellets), vec![95 * UNIT, -2 * UNIT]);
    assert_eq!(pellets.items[0].position.x, 10 * UNIT);
    assert_eq!(pellets.items[1].position.x, 20 * UNIT);
    assert_eq!(ids(&pellets), vec![0, 1]);
}

#[test]
fn advance_all_reaches_far_below_without_overflow() {
    let mut rules = Rules::standard();
    rules.fall_speed = 1_000_000_000;
    let mut pellets = Pellets::new();
    pellets.spawn(Position::new(0, -COORD_MAX));
    pellets.advance_all(u32::MAX, &rules);
    assert_eq!(heights(&pellets), vec![-COORD_MAX - 4_294_967_295 * 1_000_000_000]);
    pellets.prune_out_of_bounds(&rules);
    assert!(pellets.items.is_empty());
}

#[test]
fn prune_removes_only_what_is_below_the_floor() {
    let rules = Rules::standard();
    let mut pellets = Pellets::new();
    for y in [5, 0, -1, 7, -300, 1] {
        pellets.spawn(Position::new(0, y));
    }
    pellets.prune_out_of_bounds(&rules);
    assert_eq!(heights(&pellets), vec![5, 0, 7, 1]);
    assert_eq!(ids(&pellets), vec![0, 1, 3, 5]);
    assert_eq!(pellets.next_id, 6);
    assert!(pellets.is_valid());
}

#[test]
fn despawn_removes_the_named_pellet_only() {
    let mut pellets = Pellets::new();
    for y in [10, 20, 30] {
        pellets.spawn(Position::new(0, y));
    }
    assert!(pellets.despawn(1));
    assert_eq!(ids(&pellets), vec![0, 2]);
    assert_eq!(heights(&pellets), vec![10, 30]);
    assert!(!pellets.despawn(1));
    assert!(!pellets.despawn(99));
    assert_eq!(ids(&pellets), vec![0, 2]);
}

fn rounds_until_pruned(y0: i64, fall_speed: i64, floor: i64) -> u32 {
    let mut rules = Rules::standard();
    rules.fall_speed = fall_speed;
    rules.floor = floor;
    let mut pellets = Pellets::new();
    pellets.spawn(Position::new(0, y0));
    let mut rounds = 0;
    while !pellets.items.is_empty() {
        pellets.advance_all(1, &rules);
        pellets.prune_out_of_bounds(&rules);
        rounds += 1;
        assert!(rounds < 1_000_000);
    }
    rounds
}

#[test]
fn pellet_is_pruned_after_the_rounded_up_number_of_steps() {
    // 10.5 units above the floor at 1 unit a step: ceil(10.5) = 11
    assert_eq!(rounds_until_pruned(10 * UNIT + 500, UNIT, 0), 11);
    // 7 above the floor at 3 a step: ceil(7 / 3) = 3
    assert_eq!(rounds_until_pruned(-209, 3, -216), 3);
    assert_eq!(rounds_until_pruned(1, 1_000, 0), 1);
}

#[test]
fn pellet_that_lands_on_the_floor_lasts_one_step_longer() {
    // a pellet at the floor is not below it
    assert_eq!(rounds_until_pruned(10 * UNIT, UNIT, 0), 11);
    assert_eq!(rounds_until_pruned(0, UNIT, 0), 1);
    assert_eq!(rounds_until_pruned(6, 3, 0), 3);
}

#[test]
fn pellet_below_the_floor_goes_with_the_first_step() {
    assert_eq!(rounds_until_pruned(-5, UNIT, 0), 1);
}

#[test]
fn is_valid_sees_disorder_and_far_pellets() {
    let ok = Pellets {
        items: vec![
            Pellet { id: 1, position: Position::new(0, 0) },
            Pellet { id: 4, position: Position::new(0, 0) },
        ],
        next_id: 5,
    };
    assert!(ok.is_valid());
    let twice = Pellets {
        items: vec![
            Pellet { id: 1, position: Position::new(0, 0) },
            Pellet { id: 1, position: Position::new(0, 0) },
        ],
        next_id: 5,
    };
    assert!(!twice.is_valid());
    let stale = Pellets { items: vec![Pellet { id: 5, position: Position::new(0, 0) }], next_id: 5 };
    assert!(!stale.is_valid());
    let far = Pellets {
        items: vec![Pellet { id: 0, position: Position::new(0, COORD_MAX + 1) }],
        next_id: 1,
    };
    assert!(!far.is_valid());
}
