use roguelike::combat::{
    blockers_of, death_system, resolve_target_events, ActorEffect, CombatOutcome, Combatant, Defense,
    HitPoints, MaxHitPoints, Strength, TargetEvent,
};
use roguelike::grid::{Grid, Position};
use roguelike::map::{MapTile, TileMap};
use roguelike::map_state::{update_map_state_system, MapActors, MapObstacles};
use roguelike::turn_system::{turn_begin_system, turn_end_system, Energy, Speed, TurnState};

fn waiting(energy: i32, speed: i32) -> TurnState {
    TurnState { energy: Energy(energy), speed: Speed(speed), taking_a_turn: false }
}

#[test]
fn speed_100_acts_every_pass() {
    let mut actors = vec![waiting(0, 100)];
    for _ in 0..3 {
        let g = turn_begin_system(&mut actors);
        assert_eq!(g.granted, Some(0));
        assert_eq!(g.rounds, 1);
        actors[0].energy = Energy(0);
        turn_end_system(&mut actors);
        assert!(!actors[0].taking_a_turn);
    }
}

#[test]
fn speed_50_needs_two_rounds() {
    let mut actors = vec![waiting(0, 50)];
    let g = turn_begin_system(&mut actors);
    assert_eq!(g.granted, Some(0));
    assert_eq!(g.rounds, 2);
    assert_eq!(actors[0].energy, Energy(100));
}

#[test]
fn first_in_order_wins_and_later_actors_stop_accumulating() {
    let mut actors = vec![waiting(0, 20), waiting(50, 25), waiting(0, 25)];
    let g = turn_begin_system(&mut actors);
    assert_eq!(g.granted, Some(1));
    assert_eq!(g.rounds, 2);
    assert_eq!(actors[0].energy, Energy(40));
    assert_eq!(actors[1].energy, Energy(100));
    assert_eq!(actors[2].energy, Energy(25));
    assert!(actors[1].taking_a_turn);
    assert!(!actors[0].taking_a_turn && !actors[2].taking_a_turn);
}

#[test]
fn no_pass_while_someone_acts() {
    let mut actors = vec![waiting(10, 30), TurnState { energy: Energy(120), speed: Speed(10), taking_a_turn: true }];
    let g = turn_begin_system(&mut actors);
    assert_eq!(g.granted, None);
    assert_eq!(actors[0].energy, Energy(10));
}

#[test]
fn no_pass_when_nobody_can_reach_the_threshold() {
    let mut actors = vec![waiting(10, 0), waiting(0, 0)];
    let g = turn_begin_system(&mut actors);
    assert_eq!(g.granted, None);
    assert_eq!(actors[0].energy, Energy(10));
}

#[test]
fn turn_ends_only_below_threshold() {
    let mut actors = vec![
        TurnState { energy: Energy(0), speed: Speed(10), taking_a_turn: true },
        TurnState { energy: Energy(100), speed: Speed(10), taking_a_turn: true },
    ];
    turn_end_system(&mut actors);
    assert!(!actors[0].taking_a_turn);
    assert!(actors[1].taking_a_turn);
}

fn fighter(hp: i32, max_hp: i32, defense: i32, strong: bool, pos: Position) -> Option<Combatant> {
    Some(Combatant {
        hp: HitPoints(hp),
        max_hp: MaxHitPoints(max_hp),
        defense: Defense(defense),
        strength: if strong { Some(Strength(3)) } else { None },
        pos,
    })
}

#[test]
fn heal_is_clamped_to_max_hp() {
    let mut cs = vec![fighter(10, 10, 0, true, Position::new(1, 1)), fighter(50, 60, 0, true, Position::new(2, 2))];
    let log = resolve_target_events(&mut cs, &vec![TargetEvent { actor: 0, target: 1, effect: ActorEffect::Heal(30) }]);
    assert_eq!(cs[1].unwrap().hp, HitPoints(60));
    assert_eq!(log, vec![CombatOutcome { actor: 0, target: 1, effect: ActorEffect::Heal(10) }]);
}

#[test]
fn damage_is_reduced_by_defense() {
    let mut cs = vec![fighter(10, 10, 0, true, Position::new(1, 1)), fighter(30, 30, 4, true, Position::new(2, 2))];
    let log = resolve_target_events(&mut cs, &vec![TargetEvent { actor: 0, target: 1, effect: ActorEffect::Damage(10) }]);
    assert_eq!(cs[1].unwrap().hp, HitPoints(24));
    assert_eq!(log, vec![CombatOutcome { actor: 0, target: 1, effect: ActorEffect::Damage(6) }]);
}

#[test]
fn damage_below_defense_does_nothing() {
    let mut cs = vec![fighter(10, 10, 0, true, Position::new(1, 1)), fighter(30, 30, 5, true, Position::new(2, 2))];
    let log = resolve_target_events(&mut cs, &vec![TargetEvent { actor: 0, target: 1, effect: ActorEffect::Damage(3) }]);
    assert_eq!(cs[1].unwrap().hp, HitPoints(30));
    assert!(log.is_empty());
}

#[test]
fn heal_at_full_health_does_nothing() {
    let mut cs = vec![fighter(10, 10, 0, true, Position::new(1, 1))];
    let log = resolve_target_events(&mut cs, &vec![TargetEvent { actor: 0, target: 0, effect: ActorEffect::Heal(5) }]);
    assert_eq!(cs[0].unwrap().hp, HitPoints(10));
    assert!(log.is_empty());
}

#[test]
fn damage_from_actor_without_strength_is_dropped() {
    let mut cs = vec![fighter(10, 10, 0, false, Position::new(1, 1)), fighter(30, 30, 0, true, Position::new(2, 2))];
    let log = resolve_target_events(&mut cs, &vec![
        TargetEvent { actor: 0, target: 1, effect: ActorEffect::Damage(10) },
        TargetEvent { actor: 5, target: 1, effect: ActorEffect::Damage(10) },
        TargetEvent { actor: 1, target: 7, effect: ActorEffect::Damage(10) },
    ]);
    assert_eq!(cs[1].unwrap().hp, HitPoints(30));
    assert!(log.is_empty());
}

#[test]
fn effects_apply_in_queue_order() {
    let mut cs = vec![fighter(10, 10, 0, true, Position::new(1, 1)), fighter(20, 20, 0, true, Position::new(2, 2))];
    let log = resolve_target_events(&mut cs, &vec![
        TargetEvent { actor: 0, target: 1, effect: ActorEffect::Heal(5) },
        TargetEvent { actor: 0, target: 1, effect: ActorEffect::Damage(15) },
        TargetEvent { actor: 0, target: 1, effect: ActorEffect::Heal(50) },
        TargetEvent { actor: 0, target: 1, effect: ActorEffect::Damage(30) },
    ]);
    assert_eq!(cs[1].unwrap().hp, HitPoints(-10));
    assert_eq!(log.len(), 3);
    assert_eq!(log[1].effect, ActorEffect::Heal(15));
}

#[test]
fn dead_combatant_is_removed_and_its_cell_unblocked() {
    let mut g = Grid::new(6, 6, MapTile::Wall);
    for y in 1..5 {
        for x in 1..5 {
            g.set(x, y, MapTile::Floor);
        }
    }
    let map = TileMap(g);
    let mut cs = vec![fighter(10, 10, 0, true, Position::new(1, 1)), fighter(5, 30, 0, true, Position::new(3, 2))];
    let names = vec!["Player".to_string(), "Orc".to_string()];
    let mut obstacles = MapObstacles::default();
    let mut actors = MapActors::default();
    update_map_state_system(&map, &blockers_of(&cs), true, &mut obstacles, &mut actors);
    assert!(obstacles.0.grid().get(3, 2));
    resolve_target_events(&mut cs, &vec![TargetEvent { actor: 0, target: 1, effect: ActorEffect::Damage(5) }]);
    assert_eq!(cs[1].unwrap().hp, HitPoints(0));
    let report = death_system(&mut cs, &names, &mut obstacles, &mut actors);
    assert!(report.off_grid.is_empty());
    let killed = report.killed;
    assert_eq!(killed.len(), 1);
    assert_eq!(killed[0].name, "Orc");
    assert!(cs[1].is_none());
    assert!(!obstacles.0.grid().get(3, 2));
    assert_eq!(actors.0.get(3, 2), None);
    update_map_state_system(&map, &blockers_of(&cs), true, &mut obstacles, &mut actors);
    assert!(!obstacles.0.grid().get(3, 2));
    assert!(obstacles.0.grid().get(1, 1));
    assert_eq!(actors.0.get(1, 1), Some(0));
}

#[test]
fn several_lethal_hits_resolve_before_death() {
    let mut cs = vec![
        fighter(10, 10, 0, true, Position::new(1, 1)),
        fighter(3, 30, 0, true, Position::new(2, 1)),
        fighter(4, 30, 0, true, Position::new(3, 1)),
    ];
    resolve_target_events(&mut cs, &vec![
        TargetEvent { actor: 1, target: 2, effect: ActorEffect::Damage(9) },
        TargetEvent { actor: 2, target: 1, effect: ActorEffect::Damage(9) },
    ]);
    let names = vec!["A".to_string(), "B".to_string(), "C".to_string()];
    let mut obstacles = MapObstacles::default();
    let mut actors = MapActors::default();
    let report = death_system(&mut cs, &names, &mut obstacles, &mut actors);
    assert_eq!(report.off_grid, vec![1, 2]);
    let killed = report.killed;
    let got: Vec<&str> = killed.iter().map(|k| k.name.as_str()).collect();
    assert_eq!(got, vec!["B", "C"]);
}
