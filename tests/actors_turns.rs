use roguelike::combat::{ActorEffect, AttackDice};
use roguelike::grid::{Grid, Position};
use roguelike::map::{MapTile, TileMap};
use roguelike::map_state::{update_map_state_system, MapActors, MapObstacles, PathBlocker};
use roguelike::monster::{decide_monster_action, monster_ai, MonsterAction, MonsterBundle, MonsterTurnError};
use roguelike::player::{is_in_bounds, player_input, PlayerBundle, PlayerCommand};
use bracket_random::prelude::RandomNumberGenerator;
use roguelike::turn_system::Energy;
use roguelike::visibility::{view_system, MapView, ViewRange};

fn room_map(w: usize, h: usize) -> TileMap {
    let mut g = Grid::new(w, h, MapTile::Wall);
    for y in 1..h as i32 - 1 {
        for x in 1..w as i32 - 1 {
            g.set(x, y, MapTile::Floor);
        }
    }
    TileMap(g)
}

fn index_for(map: &TileMap, blockers: &[PathBlocker]) -> (MapObstacles, MapActors) {
    let mut obstacles = MapObstacles::default();
    let mut actors = MapActors::default();
    update_map_state_system(map, &blockers.to_vec(), true, &mut obstacles, &mut actors);
    (obstacles, actors)
}

#[test]
fn adjacent_monster_attacks_without_moving() {
    let map = room_map(12, 12);
    let player = Position::new(6, 5);
    let mut monster = Position::new(5, 5);
    let (mut obstacles, mut actors) = index_for(&map, &[
        PathBlocker { id: 0, pos: player },
        PathBlocker { id: 1, pos: monster },
    ]);
    let mut view = MapView(Grid::new(0, 0, false));
    view_system(&mut view, &map, monster, ViewRange(4), true);
    assert!(view.0.get(6, 5));
    let mut energy = Energy(100);
    let dice = AttackDice::new(1, 4, 0);
    let mut rng = RandomNumberGenerator::seeded(3);
    let attack = monster_ai(&mut obstacles, &mut actors, 1, &mut monster, &mut energy, dice, &view, 0, player, &mut rng).unwrap();
    let ev = attack.expect("an attack");
    assert_eq!((ev.actor, ev.target), (1, 0));
    match ev.effect {
        ActorEffect::Damage(d) => assert!((1..=4).contains(&d)),
        ActorEffect::Heal(_) => panic!("a heal"),
    }
    assert_eq!(monster, Position::new(5, 5));
    assert_eq!(energy, Energy(0));
    assert!(obstacles.0.grid().get(5, 5) && obstacles.0.grid().get(6, 5));
    assert_eq!(actors.0.get(5, 5), Some(1));
}

#[test]
fn distant_monster_steps_along_the_path() {
    let map = room_map(12, 12);
    let player = Position::new(6, 5);
    let mut monster = Position::new(3, 5);
    let (mut obstacles, mut actors) = index_for(&map, &[
        PathBlocker { id: 0, pos: player },
        PathBlocker { id: 1, pos: monster },
    ]);
    let mut view = MapView(Grid::new(0, 0, false));
    view_system(&mut view, &map, monster, ViewRange(4), true);
    let mut energy = Energy(100);
    let mut rng = RandomNumberGenerator::seeded(3);
    let attack = monster_ai(&mut obstacles, &mut actors, 1, &mut monster, &mut energy, AttackDice::new(1, 4, 0), &view, 0, player, &mut rng).unwrap();
    assert!(attack.is_none());
    assert_eq!(monster, Position::new(4, 5));
    assert_eq!(actors.0.get(3, 5), None);
    assert_eq!(actors.0.get(4, 5), Some(1));
    assert!(!obstacles.0.grid().get(3, 5));
    assert!(obstacles.0.grid().get(4, 5));
    assert!(obstacles.0.grid().get(6, 5));
    assert_eq!(energy, Energy(0));
}

#[test]
fn monster_that_cannot_see_the_player_waits() {
    let map = room_map(12, 12);
    let player = Position::new(10, 10);
    let mut monster = Position::new(2, 2);
    let (mut obstacles, mut actors) = index_for(&map, &[
        PathBlocker { id: 0, pos: player },
        PathBlocker { id: 1, pos: monster },
    ]);
    let mut view = MapView(Grid::new(0, 0, false));
    view_system(&mut view, &map, monster, ViewRange(4), true);
    let mut energy = Energy(100);
    let mut rng = RandomNumberGenerator::seeded(1);
    let attack = monster_ai(&mut obstacles, &mut actors, 1, &mut monster, &mut energy, AttackDice::new(1, 4, 0), &view, 0, player, &mut rng);
    assert_eq!(attack, Ok(None));
    assert_eq!(monster, Position::new(2, 2));
    assert_eq!(energy, Energy(0));
}

#[test]
fn decision_follows_the_path() {
    let open = Grid::new(10, 10, false);
    assert_eq!(decide_monster_action(&open, &Some(vec![(5, 5), (6, 5)])), MonsterAction::Attack);
    assert_eq!(decide_monster_action(&open, &Some(vec![(2, 5), (3, 5), (4, 5)])), MonsterAction::MoveTo(Position::new(3, 5)));
    assert_eq!(decide_monster_action(&open, &None), MonsterAction::Wait);
    assert_eq!(decide_monster_action(&open, &Some(vec![(5, 5)])), MonsterAction::Wait);
    assert_eq!(decide_monster_action(&open, &Some(vec![(9, 9), (10, 9), (11, 9)])), MonsterAction::Wait);
    let mut blocked = Grid::new(10, 10, false);
    blocked.set(3, 5, true);
    assert_eq!(decide_monster_action(&blocked, &Some(vec![(2, 5), (3, 5), (4, 5)])), MonsterAction::Wait);
}

#[test]
fn player_moves_onto_open_cell() {
    let map = room_map(8, 8);
    let mut pos = Position::new(2, 2);
    let (mut obstacles, mut actors) = index_for(&map, &[PathBlocker { id: 0, pos }]);
    let mut energy = Energy(100);
    let mut rng = RandomNumberGenerator::seeded(5);
    let r = player_input(PlayerCommand::Move(1, 1), 0, &mut pos, &mut energy, AttackDice::new(5, 3, 0), &mut obstacles, &mut actors, &vec![false], &mut rng);
    assert!(r.is_none());
    assert_eq!(pos, Position::new(3, 3));
    assert_eq!(energy, Energy(0));
    assert_eq!(actors.0.get(2, 2), None);
    assert_eq!(actors.0.get(3, 3), Some(0));
    assert!(!obstacles.0.grid().get(2, 2));
    assert!(obstacles.0.grid().get(3, 3));
}

#[test]
fn player_attacks_monster_in_the_way() {
    let map = room_map(8, 8);
    let mut pos = Position::new(2, 2);
    let (mut obstacles, mut actors) = index_for(&map, &[PathBlocker { id: 0, pos }, PathBlocker { id: 1, pos: Position::new(3, 2) }]);
    let mut energy = Energy(100);
    let mut rng = RandomNumberGenerator::seeded(5);
    let r = player_input(PlayerCommand::Move(1, 0), 0, &mut pos, &mut energy, AttackDice::new(5, 3, 0), &mut obstacles, &mut actors, &vec![false, true], &mut rng);
    let ev = r.expect("an attack");
    assert_eq!((ev.actor, ev.target), (0, 1));
    match ev.effect {
        ActorEffect::Damage(d) => assert!((5..=15).contains(&d)),
        ActorEffect::Heal(_) => panic!("a heal"),
    }
    assert_eq!(pos, Position::new(2, 2));
    assert_eq!(energy, Energy(0));
}

#[test]
fn player_bumping_a_wall_keeps_the_turn() {
    let map = room_map(8, 8);
    let mut pos = Position::new(1, 1);
    let (mut obstacles, mut actors) = index_for(&map, &[PathBlocker { id: 0, pos }]);
    let mut energy = Energy(100);
    let mut rng = RandomNumberGenerator::seeded(5);
    let r = player_input(PlayerCommand::Move(-1, 0), 0, &mut pos, &mut energy, AttackDice::new(5, 3, 0), &mut obstacles, &mut actors, &vec![false], &mut rng);
    assert!(r.is_none());
    assert_eq!(pos, Position::new(1, 1));
    assert_eq!(energy, Energy(100));
}

#[test]
fn player_wait_and_idle() {
    let map = room_map(8, 8);
    let mut pos = Position::new(2, 2);
    let (mut obstacles, mut actors) = index_for(&map, &[PathBlocker { id: 0, pos }]);
    let mut energy = Energy(100);
    let mut rng = RandomNumberGenerator::seeded(5);
    player_input(PlayerCommand::Idle, 0, &mut pos, &mut energy, AttackDice::new(5, 3, 0), &mut obstacles, &mut actors, &vec![false], &mut rng);
    assert_eq!(energy, Energy(100));
    player_input(PlayerCommand::Move(0, 0), 0, &mut pos, &mut energy, AttackDice::new(5, 3, 0), &mut obstacles, &mut actors, &vec![false], &mut rng);
    assert_eq!(energy, Energy(100));
    player_input(PlayerCommand::Wait, 0, &mut pos, &mut energy, AttackDice::new(5, 3, 0), &mut obstacles, &mut actors, &vec![false], &mut rng);
    assert_eq!(energy, Energy(0));
    assert_eq!(pos, Position::new(2, 2));
}

#[test]
fn bounds_check() {
    let g = Grid::new(4, 3, false);
    assert!(is_in_bounds(&g, 0, 0));
    assert!(is_in_bounds(&g, 3, 2));
    assert!(!is_in_bounds(&g, 4, 2));
    assert!(!is_in_bounds(&g, -1, 0));
}

#[test]
fn monster_kinds() {
    let g = MonsterBundle::get_from_index(0);
    assert_eq!(g.name, "Goblin");
    assert_eq!(g.combatant_bundle.hp.0, 15);
    let o = MonsterBundle::get_from_index(1);
    assert_eq!(o.name, "Orc");
    assert_eq!(o.speed.0, 15);
    assert_eq!(MonsterBundle::get_from_index(7).glyph, 'g');
    assert_eq!(MonsterBundle::max_index(), 2);
    let p = PlayerBundle::new();
    assert_eq!(p.combatant_bundle.max_hp.0, 60);
    assert_eq!(p.view_range, ViewRange(5));
}

#[test]
fn monster_off_the_grid_reports_it() {
    let map = room_map(8, 8);
    let player = Position::new(3, 3);
    let mut monster = Position::new(20, 3);
    let (mut obstacles, mut actors) = index_for(&map, &[PathBlocker { id: 0, pos: player }]);
    let view = MapView(Grid::new(8, 8, true));
    let mut energy = Energy(100);
    let mut rng = RandomNumberGenerator::seeded(2);
    let r = monster_ai(&mut obstacles, &mut actors, 1, &mut monster, &mut energy, AttackDice::new(1, 4, 0), &view, 0, player, &mut rng);
    assert_eq!(r, Err(MonsterTurnError::OffGrid));
    assert_eq!(monster, Position::new(20, 3));
    assert_eq!(energy, Energy(0));
}
