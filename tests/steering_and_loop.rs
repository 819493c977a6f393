use ninja_clown_bot::bot::{self, ActivationPolicy, Config, TickOutcome};
use ninja_clown_bot::decision::{Decision, DecisionCommit};
use ninja_clown_bot::entity::{Entities, Entity, EntityKind, EntityState, Properties};
use ninja_clown_bot::map::{Cell, CellKind, CellPos, GridMap, InteractionKind};
use ninja_clown_bot::steering::{move_towards, normalize_angle, FULL_TURN, HALF_TURN, TURN_THROTTLE};

const MOVE_SPEED: i64 = 200_000;

fn props() -> Properties {
    Properties::new(MOVE_SPEED, 100_000, 1_000_000, 1_000_000)
}

fn entity(kind: EntityKind, x: i64, y: i64, handle: usize, state: EntityState) -> Entity {
    Entity::new(kind, x, y, 0, handle, state, props())
}

fn empty_slot(handle: usize) -> Entity {
    entity(EntityKind::NotAnEntity, 0, 0, handle, EntityState::Idle)
}

fn centre(v: usize) -> i64 {
    v as i64 * 1_000_000 + 500_000
}

fn row(kinds: &[(CellKind, InteractionKind)]) -> GridMap {
    let cells = kinds.iter().map(|(k, i)| Cell::new(*k, *i)).collect::<Vec<_>>();
    GridMap::new(kinds.len(), 1, cells)
}

fn ground() -> (CellKind, InteractionKind) {
    (CellKind::Ground, InteractionKind::NoInteraction)
}

fn settle(map: &mut GridMap) {
    let cells = (0..map.width() * map.height()).map(|i| map.cell_at_index(i)).collect();
    assert_eq!(map.update(cells), 0);
}

#[test]
fn normalisation_stays_in_half_open_range() {
    assert_eq!(normalize_angle(10 * HALF_TURN), 0);
    assert_eq!(normalize_angle(HALF_TURN), HALF_TURN);
    assert_eq!(normalize_angle(-HALF_TURN), HALF_TURN);
    assert_eq!(normalize_angle(3 * FULL_TURN + 5), 5);
    assert_eq!(normalize_angle(-3 * FULL_TURN - 5), -5);
    for d in [-40_000_000i64, -HALF_TURN - 1, -1, 0, 1, HALF_TURN + 1, 31_415_930, 77_777_777] {
        let r = normalize_angle(d);
        assert!(-HALF_TURN < r && r <= HALF_TURN);
        assert_eq!((r - d).rem_euclid(FULL_TURN), 0);
    }
}

#[test]
fn aligned_entity_moves_at_its_own_speed() {
    let me = entity(EntityKind::Dll, 0, 0, 3, EntityState::Idle);
    let c = move_towards(&me, 10_000);
    assert_eq!(
        c,
        DecisionCommit {
            entity_handle: 3,
            decision: Decision::Movement { rotation: 10_000, forward_diff: MOVE_SPEED, lateral_diff: 0 },
        }
    );
}

#[test]
fn turning_entity_is_throttled() {
    let mut me = entity(EntityKind::Dll, 0, 0, 1, EntityState::Idle);
    me.angle = FULL_TURN + 100_000;
    let c = move_towards(&me, -400_000);
    assert_eq!(
        c.decision,
        Decision::Movement { rotation: -500_000, forward_diff: TURN_THROTTLE / 500_000, lateral_diff: 0 }
    );
}

#[test]
fn decision_constructors_and_commit() {
    assert_eq!(Decision::attack(4).commit(1), DecisionCommit { entity_handle: 1, decision: Decision::Attack { target_handle: 4 } });
    assert_eq!(Decision::activate(2, 3), Decision::Activate { column: 2, line: 3 });
    assert_eq!(Decision::throw(), Decision::Throw);
    assert_eq!(Decision::movement(1, 2, 3), Decision::Movement { rotation: 1, forward_diff: 2, lateral_diff: 3 });
}

#[test]
fn entity_table_skips_empty_slots() {
    let table = Entities::new(vec![
        empty_slot(0),
        entity(EntityKind::Patrol, 1, 2, 1, EntityState::Idle),
        empty_slot(2),
        entity(EntityKind::Dll, 3, 4, 3, EntityState::Busy),
    ]);
    assert_eq!(table.len(), 4);
    assert_eq!(table.get(0), None);
    assert_eq!(table.get(9), None);
    assert_eq!(table.get(1).unwrap().kind(), EntityKind::Patrol);
    let live = table.iter();
    assert_eq!(live.len(), 2);
    assert_eq!(live[1].handle(), 3);
    assert_eq!(live[1].state(), EntityState::Busy);
    assert_eq!(EntityKind::from_raw(5), Some(EntityKind::Dll));
    assert_eq!(EntityKind::from_raw(6), None);
}

#[test]
fn start_level_needs_the_bots_entity() {
    let map = row(&[ground(), ground()]);
    let table = Entities::new(vec![entity(EntityKind::Aggressive, 0, 0, 0, EntityState::Idle)]);
    assert!(bot::start_level(&map, &table, CellPos::new(1, 0), Config::default()).is_none());
}

#[test]
fn start_level_lists_target_then_interactive_cell() {
    bot::init();
    let map = row(&[ground(), (CellKind::Ground, InteractionKind::LightManual), ground()]);
    let table = Entities::new(vec![empty_slot(0), entity(EntityKind::Dll, centre(0), centre(0), 1, EntityState::Idle)]);
    let data = bot::start_level(&map, &table, CellPos::new(2, 0), Config::default()).unwrap();
    assert_eq!(data.self_handle_of(), 1);
    assert_eq!(data.goal_list(), vec![CellPos::new(2, 0), CellPos::new(1, 0)]);
    assert_eq!(data.current_target(), None);
}

#[test]
fn first_tick_steers_towards_first_waypoint() {
    let map = row(&[ground(), ground(), ground()]);
    let table = Entities::new(vec![entity(EntityKind::Dll, centre(0), centre(0), 0, EntityState::Idle)]);
    let mut data = bot::start_level(&map, &table, CellPos::new(2, 0), Config::default()).unwrap();
    assert_eq!(bot::think(&map, &table, &mut data), TickOutcome::Steer(CellPos::new(1, 0)));
    assert_eq!(data.current_target(), Some(CellPos::new(1, 0)));
}

#[test]
fn unreachable_goals_stall() {
    let map = row(&[ground(), (CellKind::Wall, InteractionKind::NoInteraction), ground()]);
    let table = Entities::new(vec![entity(EntityKind::Dll, centre(0), centre(0), 0, EntityState::Idle)]);
    let mut data = bot::start_level(&map, &table, CellPos::new(2, 0), Config::default()).unwrap();
    assert_eq!(bot::think(&map, &table, &mut data), TickOutcome::Unreachable);
    assert_eq!(data.current_target(), None);
}

#[test]
fn missing_self_commits_nothing() {
    let map = row(&[ground(), ground()]);
    let table = Entities::new(vec![entity(EntityKind::Dll, centre(0), centre(0), 0, EntityState::Idle)]);
    let mut data = bot::start_level(&map, &table, CellPos::new(1, 0), Config::default()).unwrap();
    let gone = Entities::new(vec![empty_slot(0)]);
    assert_eq!(bot::think(&map, &gone, &mut data), TickOutcome::MissingSelf);
}

#[test]
fn hostile_in_range_is_attacked_before_moving() {
    let mut map = row(&[ground(), ground(), ground()]);
    let me = entity(EntityKind::Dll, centre(0), centre(0), 0, EntityState::Idle);
    let table = Entities::new(vec![me]);
    let mut data = bot::start_level(&map, &table, CellPos::new(2, 0), Config::default()).unwrap();
    assert_eq!(bot::think(&map, &table, &mut data), TickOutcome::Steer(CellPos::new(1, 0)));
    settle(&mut map);
    let far = entity(EntityKind::Harmless, centre(2), centre(0), 1, EntityState::Idle);
    let near = entity(EntityKind::Aggressive, centre(0) + 300_000, centre(0), 2, EntityState::Idle);
    let with_enemy = Entities::new(vec![me, far, near]);
    assert_eq!(
        bot::think(&map, &with_enemy, &mut data),
        TickOutcome::Commit(Decision::attack(2).commit(0))
    );
    assert_eq!(data.current_target(), Some(CellPos::new(1, 0)));
}

#[test]
fn projectile_in_range_is_not_attacked() {
    let map = row(&[ground(), ground()]);
    let me = entity(EntityKind::Dll, centre(0), centre(0), 0, EntityState::Idle);
    let shot = entity(EntityKind::Projectile, centre(0), centre(0), 1, EntityState::Idle);
    let table = Entities::new(vec![me, shot]);
    let mut data = bot::start_level(&map, &table, CellPos::new(1, 0), Config::default()).unwrap();
    assert_eq!(bot::think(&map, &table, &mut data), TickOutcome::Steer(CellPos::new(1, 0)));
}

#[test]
fn busy_entity_commits_nothing() {
    let map = row(&[ground(), ground(), ground()]);
    let busy = entity(EntityKind::Dll, centre(0), centre(0), 0, EntityState::Busy);
    let enemy = entity(EntityKind::Aggressive, centre(0), centre(0), 1, EntityState::Idle);
    let table = Entities::new(vec![busy, enemy]);
    let mut data = bot::start_level(&map, &table, CellPos::new(2, 0), Config::default()).unwrap();
    assert_eq!(bot::think(&map, &table, &mut data), TickOutcome::Busy);
    assert_eq!(data.current_target(), None);
}

#[test]
fn walk_on_ground_waypoint_is_activated_once() {
    let mut map = row(&[ground(), (CellKind::Ground, InteractionKind::WalkOnGround)]);
    let start = entity(EntityKind::Dll, centre(0), centre(0), 0, EntityState::Idle);
    let mut data = bot::start_level(&map, &Entities::new(vec![start]), CellPos::new(1, 0), Config::default()).unwrap();
    assert_eq!(bot::think(&map, &Entities::new(vec![start]), &mut data), TickOutcome::Steer(CellPos::new(1, 0)));
    settle(&mut map);
    let there = Entities::new(vec![entity(EntityKind::Dll, centre(1) + 100_000, centre(0), 0, EntityState::Idle)]);
    assert_eq!(
        bot::think(&map, &there, &mut data),
        TickOutcome::Commit(Decision::activate(1, 0).commit(0))
    );
    assert_eq!(bot::think(&map, &there, &mut data), TickOutcome::Waiting);
    assert_eq!(bot::think(&map, &there, &mut data), TickOutcome::Waiting);
    assert_eq!(bot::think(&map, &there, &mut data), TickOutcome::Waiting);
}

#[test]
fn passing_waypoints_are_skipped_within_one_tick() {
    let map = row(&[ground(), ground(), ground(), ground()]);
    let cfg = Config { arrival_distance: 1_600_000, activation: ActivationPolicy::TaggedWaypoint };
    let me = Entities::new(vec![entity(EntityKind::Dll, centre(0), centre(0), 0, EntityState::Idle)]);
    let mut data = bot::start_level(&map, &me, CellPos::new(3, 0), cfg).unwrap();
    assert_eq!(bot::think(&map, &me, &mut data), TickOutcome::Steer(CellPos::new(2, 0)));
    assert_eq!(data.current_target(), Some(CellPos::new(2, 0)));
}

#[test]
fn path_end_policy_activates_the_final_cell() {
    let mut map = row(&[ground(), ground()]);
    let cfg = Config { arrival_distance: 500_000, activation: ActivationPolicy::PathEnd };
    let start = Entities::new(vec![entity(EntityKind::Dll, centre(0), centre(0), 0, EntityState::Idle)]);
    let mut data = bot::start_level(&map, &start, CellPos::new(1, 0), cfg).unwrap();
    assert_eq!(bot::think(&map, &start, &mut data), TickOutcome::Steer(CellPos::new(1, 0)));
    settle(&mut map);
    let there = Entities::new(vec![entity(EntityKind::Dll, centre(1), centre(0), 0, EntityState::Idle)]);
    assert_eq!(bot::think(&map, &there, &mut data), TickOutcome::Commit(Decision::activate(1, 0).commit(0)));
    assert_eq!(data.current_target(), None);
    assert_eq!(bot::think(&map, &there, &mut data), TickOutcome::Waiting);
}

#[test]
fn default_config_uses_half_a_cell() {
    let cfg = Config::default();
    assert_eq!(cfg.arrival_distance, 500_000);
    assert_eq!(cfg.activation, ActivationPolicy::TaggedWaypoint);
}
