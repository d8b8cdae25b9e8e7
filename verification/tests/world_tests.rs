use fish_feeding::fish::{FishState, FishVariant};
use fish_feeding::geometry::{Position, COORD_MAX, UNIT};
use fish_feeding::player::InputEvent;
use fish_feeding::prop::PropFamily;
use fish_feeding::rules::Rules;
use fish_feeding::world::{Hit, SpawnCommand, World};

const SEC: u64 = 1_000_000_000;
const STEP: u64 = 15_625_000;
const PRESS: InputEvent = InputEvent::Button { pressed: true };

fn fish(x: i64, y: i64) -> SpawnCommand {
    SpawnCommand::Fish { at: Position::new(x, y), variant: FishVariant::Common }
}

fn player(x: i64, y: i64) -> SpawnCommand {
    SpawnCommand::Player { at: Position::new(x, y) }
}

fn started(commands: Vec<SpawnCommand>) -> World {
    let mut world = World::new(Rules::standard());
    world.start(&commands);
    assert!(world.is_valid());
    world
}

#[test]
fn new_world_is_empty() {
    let world = World::new(Rules::standard());
    assert!(world.fish.is_empty());
    assert!(world.pellets.items.is_empty());
    assert!(world.props.is_empty());
    assert!(world.player.is_none());
    assert_eq!(world.rules, Rules::standard());
    assert!(world.is_valid());
}

#[test]
fn standard_rules_are_the_documented_ones() {
    let rules = Rules::standard();
    assert_eq!(rules.left, 0);
    assert_eq!(rules.right, 384 * UNIT);
    assert_eq!(rules.floor, 0);
    assert_eq!(rules.slow_speed, UNIT);
    assert_eq!(rules.fast_speed, 3 * UNIT);
    assert_eq!(rules.fall_speed, UNIT);
    assert_eq!(rules.hit_radius, 16 * UNIT);
    assert_eq!(rules.alert_radius, 32 * UNIT);
    assert_eq!(rules.eating_time, 5 * SEC);
    assert_eq!(rules.spawn_cooldown, SEC);
    assert_eq!(rules.prop_period, SEC / 2);
    assert!(rules.is_valid());
}

#[test]
fn rules_beyond_the_limits_are_not_valid() {
    let mut rules = Rules::standard();
    rules.slow_speed = -1;
    assert!(!rules.is_valid());
    let mut rules = Rules::standard();
    rules.fall_speed = 1_000_000_001;
    assert!(!rules.is_valid());
    let mut rules = Rules::standard();
    rules.right = COORD_MAX + 1;
    assert!(!rules.is_valid());
    let mut rules = Rules::standard();
    rules.floor = -COORD_MAX;
    rules.left = 10;
    rules.right = -10;
    assert!(rules.is_valid());
}

#[test]
fn start_places_what_the_level_asks_for() {
    let world = started(vec![
        fish(10 * UNIT, 20 * UNIT),
        SpawnCommand::Prop { at: Position::new(1, 2), family: PropFamily::SmallAlga },
        player(192 * UNIT, 400 * UNIT),
        SpawnCommand::Fish { at: Position::new(30 * UNIT, 40 * UNIT), variant: FishVariant::Rare },
        SpawnCommand::Prop { at: Position::new(3, 4), family: PropFamily::TallAlga },
    ]);
    assert_eq!(world.fish.len(), 2);
    assert_eq!(world.fish[0].id, 0);
    assert_eq!(world.fish[0].position, Position::new(10 * UNIT, 20 * UNIT));
    assert_eq!(world.fish[0].state, FishState::Idle);
    assert_eq!(world.fish[0].variant, FishVariant::Common);
    assert_eq!(world.fish[1].id, 1);
    assert_eq!(world.fish[1].variant, FishVariant::Rare);
    assert_eq!(world.props.len(), 2);
    assert_eq!(world.props[0].family, PropFamily::SmallAlga);
    assert_eq!(world.props[1].position, Position::new(3, 4));
    assert_eq!(world.player.unwrap().position, Position::new(192 * UNIT, 400 * UNIT));
    assert!(world.pellets.items.is_empty());
}

#[test]
fn the_first_player_stays_the_only_one() {
    let world = started(vec![player(1, 2), player(3, 4)]);
    assert_eq!(world.player.unwrap().position, Position::new(1, 2));
}

#[test]
fn fish_and_player_outside_the_coordinate_range_are_not_placed() {
    let world = started(vec![
        fish(COORD_MAX + 1, 0),
        fish(7, 7),
        player(0, -COORD_MAX - 1),
        player(5, 5),
        SpawnCommand::Prop { at: Position::new(i64::MAX, i64::MIN), family: PropFamily::TallAlga },
    ]);
    assert_eq!(world.fish.len(), 1);
    assert_eq!(world.fish[0].id, 0);
    assert_eq!(world.fish[0].position, Position::new(7, 7));
    assert_eq!(world.player.unwrap().position, Position::new(5, 5));
    assert_eq!(world.props.len(), 1);
}

#[test]
fn start_clears_the_session_before() {
    let mut world = started(vec![fish(0, 0), fish(1, 1), player(0, 400 * UNIT)]);
    world.tick(SEC, &vec![PRESS]);
    assert_eq!(world.pellets.items.len(), 1);
    world.start(&vec![fish(9, 9)]);
    assert_eq!(world.fish.len(), 1);
    assert_eq!(world.fish[0].position, Position::new(9, 9));
    assert!(world.pellets.items.is_empty());
    assert!(world.player.is_none());
    assert_eq!(world.rules, Rules::standard());
}

#[test]
fn end_removes_everything() {
    let mut world = started(vec![
        fish(0, 0),
        player(0, 400 * UNIT),
        SpawnCommand::Prop { at: Position::new(3, 4), family: PropFamily::TallAlga },
    ]);
    world.tick(SEC, &vec![PRESS]);
    world.end();
    assert!(world.fish.is_empty());
    assert!(world.pellets.items.is_empty());
    assert!(world.props.is_empty());
    assert!(world.player.is_none());
    assert!(world.is_valid());
    let report = world.tick(SEC, &vec![PRESS]);
    assert!(report.hits.is_empty());
    assert_eq!(report.spawned, None);
    assert!(world.pellets.items.is_empty());
}

#[test]
fn without_a_player_events_are_ignored() {
    let mut world = started(vec![fish(0, 0)]);
    let report = world.tick(2 * SEC, &vec![PRESS, InputEvent::Moved { x: Some(5) }]);
    assert_eq!(report.spawned, None);
    assert!(world.pellets.items.is_empty());
}

#[test]
fn a_dropped_pellet_starts_to_fall_with_the_next_step() {
    let mut world = started(vec![player(100 * UNIT, 300 * UNIT)]);
    let report = world.tick(SEC, &vec![PRESS]);
    assert_eq!(report.spawned, Some(0));
    assert_eq!(world.pellets.items[0].position, Position::new(100 * UNIT, 300 * UNIT));
    world.tick(STEP, &vec![]);
    assert_eq!(world.pellets.items[0].position, Position::new(100 * UNIT, 299 * UNIT));
}

#[test]
fn a_pellet_falls_to_the_floor_and_is_pruned() {
    let mut world = started(vec![player(100 * UNIT, 2 * UNIT + 500)]);
    world.tick(SEC, &vec![PRESS]);
    // ceil(2.5 / 1) = 3 steps
    world.tick(STEP, &vec![]);
    world.tick(STEP, &vec![]);
    assert_eq!(world.pellets.items.len(), 1);
    assert_eq!(world.pellets.items[0].position.y, 500);
    world.tick(STEP, &vec![]);
    assert!(world.pellets.items.is_empty());
    assert!(world.is_valid());
}

#[test]
fn fish_see_the_pellets_where_they_are_after_falling() {
    let mut world = started(vec![fish(100 * UNIT, 50 * UNIT)]);
    world.tick(STEP, &vec![]);
    assert_eq!(world.fish[0].state, FishState::SlowLeft);
    // 16 units above the fish: out of reach now, within reach after one step of falling
    world.pellets.spawn(Position::new(100 * UNIT, 66 * UNIT));
    let report = world.tick(STEP, &vec![]);
    assert_eq!(report.hits, vec![Hit { fish: 0, pellet: 0 }]);
    assert_eq!(world.fish[0].state, FishState::EatingLeft);
    assert_eq!(world.fish[0].position.x, 100 * UNIT);
    assert!(world.pellets.items.is_empty());
}

#[test]
fn a_pellet_below_the_floor_is_gone_before_the_fish_look() {
    let mut world = started(vec![fish(100 * UNIT, 5 * UNIT)]);
    world.pellets.spawn(Position::new(100 * UNIT, 500));
    let report = world.tick(STEP, &vec![]);
    assert!(report.hits.is_empty());
    assert!(world.pellets.items.is_empty());
    assert_eq!(world.fish[0].state, FishState::SlowLeft);
}

#[test]
fn the_first_fish_in_order_takes_a_contended_pellet() {
    let mut world = started(vec![fish(100 * UNIT, 50 * UNIT), fish(104 * UNIT, 50 * UNIT)]);
    world.pellets.spawn(Position::new(102 * UNIT, 51 * UNIT));
    let report = world.tick(STEP, &vec![]);
    assert_eq!(report.hits, vec![Hit { fish: 0, pellet: 0 }]);
    assert_eq!(world.fish[0].state, FishState::EatingLeft);
    assert_eq!(world.fish[1].state, FishState::SlowLeft);
    assert!(world.pellets.items.is_empty());
}

#[test]
fn two_pellets_feed_two_fish() {
    let mut world = started(vec![fish(100 * UNIT, 50 * UNIT), fish(104 * UNIT, 50 * UNIT)]);
    world.pellets.spawn(Position::new(102 * UNIT, 51 * UNIT));
    world.pellets.spawn(Position::new(103 * UNIT, 51 * UNIT));
    world.pellets.spawn(Position::new(300 * UNIT, 51 * UNIT));
    let report = world.tick(STEP, &vec![]);
    assert_eq!(report.hits, vec![Hit { fish: 0, pellet: 0 }, Hit { fish: 1, pellet: 1 }]);
    assert_eq!(world.fish[0].state, FishState::EatingLeft);
    assert_eq!(world.fish[1].state, FishState::EatingLeft);
    assert_eq!(world.pellets.items.len(), 1);
    assert_eq!(world.pellets.items[0].id, 2);
}

#[test]
fn two_pellets_in_reach_of_one_fish_cost_one_pellet() {
    let mut world = started(vec![fish(100 * UNIT, 50 * UNIT)]);
    world.pellets.spawn(Position::new(101 * UNIT, 51 * UNIT));
    world.pellets.spawn(Position::new(99 * UNIT, 51 * UNIT));
    let report = world.tick(STEP, &vec![]);
    assert_eq!(report.hits.len(), 1);
    assert_eq!(world.pellets.items.len(), 1);
    assert!(world.fish[0].state == FishState::EatingLeft);
}

#[test]
fn plants_are_animated_whatever_else_happens() {
    let mut world = started(vec![
        SpawnCommand::Prop { at: Position::new(3, 4), family: PropFamily::TallAlga },
        SpawnCommand::Prop { at: Position::new(5, 6), family: PropFamily::SmallAlga },
    ]);
    world.tick(SEC / 2 - 1, &vec![]);
    assert_eq!(world.props[0].frame, 0);
    assert_eq!(world.props[1].frame, 0);
    world.tick(1, &vec![]);
    assert_eq!(world.props[0].frame, 1);
    assert_eq!(world.props[1].frame, 1);
    world.tick(SEC / 2, &vec![]);
    assert_eq!(world.props[0].frame, 0);
    assert_eq!(world.props[0].position, Position::new(3, 4));
}

#[test]
fn the_player_comes_last_in_a_step() {
    // the pellet appears within reach of the fish, but in this step the fish were
    // updated before it was dropped
    let mut world = started(vec![fish(100 * UNIT, 50 * UNIT), player(100 * UNIT, 51 * UNIT)]);
    let report = world.tick(SEC, &vec![PRESS]);
    assert_eq!(report.spawned, Some(0));
    assert!(report.hits.is_empty());
    assert_eq!(world.fish[0].state, FishState::SlowLeft);
    let report = world.tick(STEP, &vec![]);
    assert_eq!(report.hits, vec![Hit { fish: 0, pellet: 0 }]);
    assert_eq!(report.spawned, None);
}

#[test]
fn a_fish_never_stops_roaming() {
    let mut world = started(vec![fish(192 * UNIT, 100 * UNIT), fish(UNIT / 2, 50 * UNIT)]);
    let mut turns = [0, 0];
    let mut last = [FishState::Idle, FishState::Idle];
    for tick in 0..10_000 {
        let report = world.tick(STEP, &vec![]);
        assert!(report.hits.is_empty());
        for i in 0..2 {
            let fish = world.fish[i];
            assert!(matches!(
                fish.state,
                FishState::Idle
                    | FishState::SlowLeft
                    | FishState::FastLeft
                    | FishState::SlowRight
                    | FishState::FastRight
                    | FishState::EatingLeft
                    | FishState::EatingRight
            ));
            assert!(matches!(fish.state, FishState::SlowLeft | FishState::SlowRight));
            assert!(fish.position.x >= -UNIT && fish.position.x <= 385 * UNIT);
            if tick > 0 && fish.state != last[i] {
                turns[i] += 1;
            }
            last[i] = fish.state;
        }
    }
    // one crossing takes 385 or 386 steps
    assert_eq!(turns, [26, 26]);
    assert!(world.is_valid());
}

#[test]
fn a_whole_session_plays_out() {
    let mut world = started(vec![fish(100 * UNIT, 50 * UNIT), player(192 * UNIT, 80 * UNIT)]);
    let mut hits = 0;
    let mut spawned = 0;
    let mut elapsed = 0;
    for tick in 0..2_000 {
        let mut events = Vec::new();
        if tick == 0 {
            events.push(InputEvent::Moved { x: Some(90 * UNIT) });
        }
        if tick % 10 == 0 {
            events.push(PRESS);
        }
        let report = world.tick(STEP, &events);
        elapsed += STEP;
        hits += report.hits.len();
        if report.spawned.is_some() {
            spawned += 1;
        }
        assert!(world.is_valid());
    }
    // 31.25 s at a pellet a second, as far as presses come every tenth step
    assert_eq!(elapsed, 31_250_000_000);
    assert!(spawned >= 25 && spawned <= 31);
    assert!(hits >= 1);
    assert!(hits + world.pellets.items.len() <= spawned);
}

#[test]
fn place_says_whether_it_placed() {
    let mut world = World::new(Rules::standard());
    assert!(world.place(fish(COORD_MAX, -COORD_MAX)));
    assert!(!world.place(fish(COORD_MAX + 1, 0)));
    assert!(!world.place(fish(0, COORD_MAX + 1)));
    assert!(world.place(SpawnCommand::Prop {
        at: Position::new(i64::MIN, i64::MAX),
        family: PropFamily::SmallAlga
    }));
    assert!(!world.place(player(-COORD_MAX - 1, 0)));
    assert!(world.place(player(1, 2)));
    assert!(!world.place(player(3, 4)));
    assert!(world.place(fish(5, 5)));
    assert_eq!(world.fish.len(), 2);
    assert_eq!(world.fish[1].id, 1);
    assert_eq!(world.props.len(), 1);
    assert_eq!(world.player.unwrap().position, Position::new(1, 2));
    assert!(world.is_valid());
}

#[test]
fn is_valid_sees_a_misplaced_fish() {
    let mut world = started(vec![fish(0, 0), fish(10, 10)]);
    world.fish[1].id = 5;
    assert!(!world.is_valid());
    world.fish[1].id = 1;
    assert!(world.is_valid());
    world.fish[0].position.x = i64::MAX;
    assert!(!world.is_valid());
    world.fish[0].position.x = 0;
    world.rules.fast_speed = -3;
    assert!(!world.is_valid());
}

#[test]
fn equal_worlds_stay_equal() {
    let commands = vec![fish(100 * UNIT, 50 * UNIT), fish(30 * UNIT, 60 * UNIT), player(90 * UNIT, 80 * UNIT)];
    let mut a = started(commands.clone());
    let mut b = started(commands);
    for tick in 0..500 {
        let events = if tick % 70 == 0 { vec![PRESS] } else { vec![] };
        let ra = a.tick(STEP, &events);
        let rb = b.tick(STEP, &events);
        assert_eq!(ra, rb);
        assert_eq!(a, b);
    }
}
