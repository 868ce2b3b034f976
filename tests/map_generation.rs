use roguelike::grid::{Grid, Position};
use roguelike::map::{overlaps_any, placement_limits, MapGenSettings, MapGenerator, MapTile, Rect, Side, TileMap};
use std::collections::VecDeque;

fn settings(seed: u64) -> MapGenSettings {
    MapGenSettings {
        width: 80,
        height: 32,
        iterations: 60,
        room_min: 4,
        room_max: 10,
        monsters_min: 0,
        monsters_max: 2,
        seed,
    }
}

fn floor(map: &TileMap, x: i32, y: i32) -> bool {
    map.0.in_bounds(x, y) && map.0.get(x, y) == MapTile::Floor
}

fn connected4(map: &TileMap, a: Position, b: Position) -> bool {
    let w = map.0.width;
    let h = map.0.height;
    let mut seen = vec![false; w * h];
    let mut queue = VecDeque::new();
    if !floor(map, a.x, a.y) {
        return false;
    }
    seen[a.y as usize * w + a.x as usize] = true;
    queue.push_back(a);
    while let Some(p) = queue.pop_front() {
        if p == b {
            return true;
        }
        for (dx, dy) in [(1, 0), (-1, 0), (0, 1), (0, -1)] {
            let (nx, ny) = (p.x + dx, p.y + dy);
            if floor(map, nx, ny) && !seen[ny as usize * w + nx as usize] {
                seen[ny as usize * w + nx as usize] = true;
                queue.push_back(Position::new(nx, ny));
            }
        }
    }
    false
}

#[test]
fn generation_is_deterministic() {
    let (a, sa) = MapGenerator::build(&settings(7));
    let (b, sb) = MapGenerator::build(&settings(7));
    assert_eq!(a.map.0.cells, b.map.0.cells);
    assert_eq!(a.rooms, b.rooms);
    assert_eq!(sa, sb);
}

#[test]
fn different_seeds_usually_differ() {
    let (a, _) = MapGenerator::build(&settings(1));
    let (b, _) = MapGenerator::build(&settings(2));
    assert!(a.rooms != b.rooms || a.map.0.cells != b.map.0.cells);
}

#[test]
fn rooms_never_overlap() {
    for seed in 0..20 {
        let (g, _) = MapGenerator::build(&settings(seed));
        assert!(g.rooms.len() > 1, "seed {} placed only the first room", seed);
        for i in 0..g.rooms.len() {
            for j in 0..g.rooms.len() {
                if i != j {
                    assert!(!g.rooms[i].overlaps(&g.rooms[j]));
                }
            }
        }
    }
}

#[test]
fn consecutive_rooms_are_tunnel_connected() {
    for seed in 0..20 {
        let (g, _) = MapGenerator::build(&settings(seed));
        for i in 1..g.rooms.len() {
            let a = g.rooms[i - 1].center();
            let b = g.rooms[i].center();
            assert!(connected4(&g.map, a, b), "seed {} rooms {} and {}", seed, i - 1, i);
        }
    }
}

#[test]
fn first_room_is_centred_and_smallest() {
    let s = settings(3);
    let (g, _) = MapGenerator::build(&s);
    assert_eq!(g.rooms[0], Rect { min: Position::new(38, 14), max: Position::new(41, 17) });
    for y in 14..=17 {
        for x in 38..=41 {
            assert!(floor(&g.map, x, y));
        }
    }
}

#[test]
fn drawn_rooms_keep_a_margin_and_size_range() {
    let s = settings(11);
    let (g, _) = MapGenerator::build(&s);
    for r in g.rooms.iter().skip(1) {
        assert!(r.min.x >= 2 && r.min.y >= 2);
        assert!(r.max.x <= 80 - 3 && r.max.y <= 32 - 3);
        let (w, h) = (r.max.x - r.min.x + 1, r.max.y - r.min.y + 1);
        assert!((4..=10).contains(&w) && (4..=10).contains(&h));
    }
}

#[test]
fn no_room_fits_on_a_tiny_map() {
    let s = MapGenSettings { width: 8, height: 8, iterations: 30, room_min: 4, room_max: 6, monsters_min: 0, monsters_max: 1, seed: 5 };
    let (g, spawns) = MapGenerator::build(&s);
    assert_eq!(g.rooms.len(), 1);
    assert!(spawns.is_empty());
    let floors = g.map.0.cells.iter().filter(|t| **t == MapTile::Floor).count();
    assert_eq!(floors, 16);
}

#[test]
fn monsters_spawn_on_distinct_cells_outside_the_first_room() {
    let (g, spawns) = MapGenerator::build(&settings(4));
    assert!(!spawns.is_empty());
    for (i, s) in spawns.iter().enumerate() {
        assert!(s.kind < 2);
        assert!(!g.rooms[0].overlaps(&Rect { min: s.pos, max: s.pos }));
        assert!(g.rooms.iter().skip(1).any(|r| r.overlaps(&Rect { min: s.pos, max: s.pos })));
        for t in spawns.iter().skip(i + 1) {
            assert_ne!(s.pos, t.pos);
        }
    }
}

#[test]
fn player_starts_in_first_room_centre() {
    let (g, _) = MapGenerator::build(&settings(9));
    let p = g.place_player();
    assert_eq!(p.pos, g.rooms[0].center());
    assert_eq!(p.view.0.width, 80);
    assert_eq!(p.view.0.height, 32);
    assert!(p.view.0.cells.iter().all(|c| !c));
    assert_eq!(p.memory.0.len(), 80 * 32);
    assert!(p.memory.0.iter().all(|c| !c));
}

#[test]
fn side_indices() {
    let map = TileMap(Grid::new(80, 32, MapTile::Wall));
    assert_eq!(map.side_index(Side::Left), 0);
    assert_eq!(map.side_index(Side::Top), 0);
    assert_eq!(map.side_index(Side::Right), 79);
    assert_eq!(map.side_index(Side::Bottom), 31);
}

#[test]
fn rect_shape_centre_and_overlap() {
    let a = Rect::from_position_size(2, 3, 4, 5);
    assert_eq!(a.min, Position::new(2, 3));
    assert_eq!(a.max, Position::new(5, 7));
    assert_eq!(a.center(), Position::new(3, 5));
    let touching = Rect::from_position_size(5, 7, 2, 2);
    assert!(a.overlaps(&touching));
    let beside = Rect::from_position_size(6, 3, 2, 2);
    assert!(!a.overlaps(&beside));
}

#[test]
fn default_tile_is_wall() {
    assert_eq!(MapTile::default(), MapTile::Wall);
}

#[test]
fn placement_limits_follow_the_margin() {
    assert_eq!(placement_limits(80, 32, 4, 4), Some((74, 26)));
    assert_eq!(placement_limits(80, 32, 10, 25), Some((68, 5)));
    assert_eq!(placement_limits(80, 32, 4, 28), None);
    assert_eq!(placement_limits(8, 8, 4, 4), None);
    assert_eq!(placement_limits(3, 3, 1, 1), None);
}

#[test]
fn overlap_check_against_all_rooms() {
    let rooms = vec![Rect::from_position_size(2, 2, 3, 3), Rect::from_position_size(10, 2, 3, 3)];
    assert!(overlaps_any(&rooms, &Rect::from_position_size(12, 4, 2, 2)));
    assert!(!overlaps_any(&rooms, &Rect::from_position_size(5, 2, 5, 5)));
    assert!(!overlaps_any(&vec![], &Rect::from_position_size(0, 0, 1, 1)));
}

#[test]
fn adding_a_room_carves_exactly_room_and_dogleg() {
    for horizontal_first in [true, false] {
        let first = Rect::from_position_size(2, 2, 3, 3);
        let mut map = TileMap(Grid::new(20, 12, MapTile::Wall));
        for y in 2..5 {
            for x in 2..5 {
                map.0.set(x, y, MapTile::Floor);
            }
        }
        let mut g = MapGenerator { map, rooms: vec![first] };
        let second = Rect::from_position_size(12, 7, 3, 3);
        g.add_room(second, horizontal_first);
        assert_eq!(g.rooms, vec![first, second]);
        let (a, b) = (first.center(), second.center());
        assert_eq!((a, b), (Position::new(3, 3), Position::new(13, 8)));
        for y in 0..12 {
            for x in 0..20 {
                let in_room = (2..5).contains(&x) && (2..5).contains(&y) || (12..15).contains(&x) && (7..10).contains(&y);
                let on_leg = if horizontal_first {
                    (y == 3 && (3..=13).contains(&x)) || (x == 13 && (3..=8).contains(&y))
                } else {
                    (x == 3 && (3..=8).contains(&y)) || (y == 8 && (3..=13).contains(&x))
                };
                assert_eq!(floor(&g.map, x, y), in_room || on_leg, "{} {} {}", x, y, horizontal_first);
            }
        }
        assert!(connected4(&g.map, a, b));
    }
}

#[test]
fn every_floor_cell_is_in_a_room_or_tunnel() {
    let (g, _) = MapGenerator::build(&settings(13));
    let centres: Vec<Position> = g.rooms.iter().map(|r| r.center()).collect();
    let between = |v: i32, a: i32, b: i32| (a.min(b)..=a.max(b)).contains(&v);
    for y in 0..32 {
        for x in 0..80 {
            if !floor(&g.map, x, y) {
                continue;
            }
            let in_room = g.rooms.iter().any(|r| r.overlaps(&Rect { min: Position::new(x, y), max: Position::new(x, y) }));
            let on_leg = (1..centres.len()).any(|i| {
                let (a, b) = (centres[i - 1], centres[i]);
                (y == a.y && between(x, a.x, b.x)) || (x == b.x && between(y, a.y, b.y))
                    || (x == a.x && between(y, a.y, b.y)) || (y == b.y && between(x, a.x, b.x))
            });
            assert!(in_room || on_leg, "{} {}", x, y);
        }
    }
}

#[test]
fn every_later_room_gets_a_monster() {
    for seed in 0..10 {
        let (g, spawns) = MapGenerator::build(&settings(seed));
        for r in g.rooms.iter().skip(1) {
            let n = spawns.iter().filter(|s| r.overlaps(&Rect { min: s.pos, max: s.pos })).count();
            assert!((1..=3).contains(&n));
        }
    }
}
