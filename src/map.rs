use vstd::prelude::*;
use rand::rngs::StdRng;
use crate::grid::{Grid, Position};
use crate::monster::MonsterBundle;
use crate::random::{random_coin, random_i32_between, random_u32_between, seeded_rng};
use crate::visibility::{MapMemory, MapView};

verus! {

/// A tile on the [TileMap].
#[derive(Clone, Copy, Debug, PartialEq, Eq, Structural)]
pub enum MapTile {
    Wall,
    Floor,
}

impl Default for MapTile {
    fn default() -> (r: MapTile)
        ensures
            r == MapTile::Wall,
    {
        MapTile::Wall
    }
}

/// The tile grid of one dungeon level.
pub struct TileMap(pub Grid<MapTile>);

/// One border of the map.
#[derive(Clone, Copy, Debug, PartialEq, Eq, Structural)]
pub enum Side {
    Top,
    Bottom,
    Left,
    Right,
}

impl TileMap {
    /// The coordinate of the outermost row or column on `side`.
    pub fn side_index(&self, side: Side) -> (r: u32)
        requires
            1 <= self.0.width <= u32::MAX,
            1 <= self.0.height <= u32::MAX,
        ensures
            r == match side {
                Side::Left => 0,
                Side::Top => 0,
                Side::Right => self.0.width - 1,
                Side::Bottom => self.0.height - 1,
            },
    {
        match side {
            Side::Left => 0,
            Side::Top => 0,
            Side::Right => (self.0.width - 1) as u32,
            Side::Bottom => (self.0.height - 1) as u32,
        }
    }
}

/// An axis-aligned rectangle of cells; both corners belong to it.
#[derive(Clone, Copy, Debug, PartialEq, Eq, Structural)]
pub struct Rect {
    pub min: Position,
    pub max: Position,
}

impl Rect {
    pub open spec fn holds(&self, x: int, y: int) -> bool {
        self.min.x <= x <= self.max.x && self.min.y <= y <= self.max.y
    }

    /// Whether the rectangle is non-empty and lies on a `w` by `h` grid.
    pub open spec fn inside(&self, w: int, h: int) -> bool {
        0 <= self.min.x <= self.max.x < w && 0 <= self.min.y <= self.max.y < h
    }

    pub open spec fn center_x(&self) -> int {
        self.min.x + (self.max.x - self.min.x) / 2
    }

    pub open spec fn center_y(&self) -> int {
        self.min.y + (self.max.y - self.min.y) / 2
    }

    /// Edge-inclusive intersection: the two share at least one cell.
    pub open spec fn meets(&self, o: Rect) -> bool {
        self.min.x <= o.max.x && o.min.x <= self.max.x && self.min.y <= o.max.y && o.min.y
            <= self.max.y
    }

    /// The `w` by `h` rectangle whose lowest corner is `(x, y)`.
    pub fn from_position_size(x: i32, y: i32, w: i32, h: i32) -> (r: Rect)
        requires
            1 <= w,
            1 <= h,
            x + w - 1 <= i32::MAX,
            y + h - 1 <= i32::MAX,
        ensures
            r.min.x == x,
            r.min.y == y,
            r.max.x == x + w - 1,
            r.max.y == y + h - 1,
    {
        Rect { min: Position { x, y }, max: Position { x: x + (w - 1), y: y + (h - 1) } }
    }

    pub fn center(&self) -> (r: Position)
        requires
            self.min.x <= self.max.x,
            self.min.y <= self.max.y,
        ensures
            r.x == self.center_x(),
            r.y == self.center_y(),
    {
        let cx: i64 = self.min.x as i64 + (self.max.x as i64 - self.min.x as i64) / 2;
        let cy: i64 = self.min.y as i64 + (self.max.y as i64 - self.min.y as i64) / 2;
        Position { x: cx as i32, y: cy as i32 }
    }

    pub fn overlaps(&self, o: &Rect) -> (r: bool)
        ensures
            r == self.meets(*o),
    {
        self.min.x <= o.max.x && o.min.x <= self.max.x && self.min.y <= o.max.y && o.min.y
            <= self.max.y
    }
}

/// What map generation is asked for.
#[derive(Clone, Copy, Debug, PartialEq, Eq, Structural)]
pub struct MapGenSettings {
    pub width: u32,
    pub height: u32,
    pub iterations: u32,
    /// The smallest side length of a room.
    pub room_min: u32,
    /// The largest side length of a room.
    pub room_max: u32,
    /// The fewest monsters drawn for a room (one more than the draw is tried).
    pub monsters_min: u32,
    /// The most monsters drawn for a room.
    pub monsters_max: u32,
    pub seed: u64,
}

impl MapGenSettings {
    pub open spec fn wf(&self) -> bool {
        &&& 1 <= self.room_min <= self.room_max
        &&& self.room_min <= self.width <= i32::MAX
        &&& self.room_min <= self.height <= i32::MAX
        &&& self.width * self.height <= usize::MAX
        &&& self.monsters_min <= self.monsters_max
    }

    /// The guaranteed room: the smallest size, centred on the map.
    pub open spec fn first_room(&self) -> Rect {
        let s = self.room_min as int;
        let x = self.width / 2 - s / 2;
        let y = self.height / 2 - s / 2;
        Rect {
            min: Position { x: x as i32, y: y as i32 },
            max: Position { x: (x + s - 1) as i32, y: (y + s - 1) as i32 },
        }
    }
}

pub open spec fn is_floor(g: Grid<MapTile>, x: int, y: int) -> bool {
    g.has(x, y) && g.at(x, y) == MapTile::Floor
}

pub open spec fn adjacent4(a: (int, int), b: (int, int)) -> bool {
    (a.0 == b.0 && (a.1 - b.1 == 1 || b.1 - a.1 == 1)) || (a.1 == b.1 && (a.0 - b.0 == 1 || b.0
        - a.0 == 1))
}

/// A walk of Floor cells, each a 4-neighbour of the next.
pub open spec fn floor_path(g: Grid<MapTile>, p: Seq<(int, int)>) -> bool {
    &&& p.len() > 0
    &&& forall|i: int| 0 <= i < p.len() ==> is_floor(g, #[trigger] p[i].0, p[i].1)
    &&& forall|i: int| 0 <= i < p.len() - 1 ==> adjacent4(#[trigger] p[i], p[i + 1])
}

/// Cells `a` and `b` are joined by a 4-connected path of Floor cells.
pub open spec fn floor_connected(g: Grid<MapTile>, a: (int, int), b: (int, int)) -> bool {
    exists|p: Seq<(int, int)>| #[trigger] floor_path(g, p) && p[0] == a && p.last() == b
}

/// `g2` has the shape of `g1` and keeps every Floor cell of it.
pub open spec fn floors_kept(g1: Grid<MapTile>, g2: Grid<MapTile>) -> bool {
    &&& g2.width == g1.width
    &&& g2.height == g1.height
    &&& forall|x: int, y: int| #[trigger] is_floor(g1, x, y) ==> is_floor(g2, x, y)
}

pub open spec fn center_of(r: Rect) -> (int, int) {
    (r.center_x(), r.center_y())
}

/// What generation promises of its rooms on a `w` by `h` map.
pub open spec fn rooms_ok(g: Grid<MapTile>, rooms: Seq<Rect>) -> bool {
    &&& forall|i: int| 0 <= i < rooms.len() ==> (#[trigger] rooms[i]).inside(g.w(), g.h())
    &&& forall|i: int, x: int, y: int|
        0 <= i < rooms.len() && (#[trigger] rooms[i]).holds(x, y) ==> #[trigger] is_floor(
            g,
            x,
            y,
        )
    &&& forall|i: int, j: int|
        0 <= i < rooms.len() && 0 <= j < rooms.len() && i != j ==> !(#[trigger] rooms[i]).meets(
            #[trigger] rooms[j],
        )
    &&& forall|i: int|
        1 <= i < rooms.len() ==> floor_connected(
            g,
            center_of(#[trigger] rooms[i - 1]),
            center_of(rooms[i]),
        )
}

pub proof fn lemma_connected_kept(g1: Grid<MapTile>, g2: Grid<MapTile>, a: (int, int), b: (int, int))
    requires
        floors_kept(g1, g2),
        floor_connected(g1, a, b),
    ensures
        floor_connected(g2, a, b),
{
    let p = choose|p: Seq<(int, int)>| #[trigger] floor_path(g1, p) && p[0] == a && p.last() == b;
    assert forall|i: int| 0 <= i < p.len() implies is_floor(g2, #[trigger] p[i].0, p[i].1) by {
        assert(is_floor(g1, p[i].0, p[i].1));
    }
    assert(floor_path(g2, p));
}

pub proof fn lemma_connected_trans(g: Grid<MapTile>, a: (int, int), b: (int, int), c: (int, int))
    requires
        floor_connected(g, a, b),
        floor_connected(g, b, c),
    ensures
        floor_connected(g, a, c),
{
    let p1 = choose|p: Seq<(int, int)>| #[trigger] floor_path(g, p) && p[0] == a && p.last() == b;
    let p2 = choose|p: Seq<(int, int)>| #[trigger] floor_path(g, p) && p[0] == b && p.last() == c;
    let p = p1 + p2.drop_first();
    assert forall|i: int| 0 <= i < p.len() implies is_floor(g, #[trigger] p[i].0, p[i].1) by {
        if i < p1.len() {
            assert(p[i] == p1[i]);
        } else {
            assert(p[i] == p2[i - p1.len() + 1]);
        }
    }
    assert forall|i: int| 0 <= i < p.len() - 1 implies adjacent4(#[trigger] p[i], p[i + 1]) by {
        if i < p1.len() - 1 {
            assert(p[i] == p1[i] && p[i + 1] == p1[i + 1]);
        } else if i == p1.len() - 1 {
            assert(p[i] == p2[0]);
            assert(p[i + 1] == p2[1]);
        } else {
            let j = i - p1.len() + 1;
            assert(p[i] == p2[j] && p[i + 1] == p2[j + 1]);
        }
    }
    assert(floor_path(g, p));
    if p2.len() == 1 {
        assert(p.last() == p1.last());
    } else {
        assert(p.last() == p2.last());
    }
}

/// A straight run of Floor cells in one row joins its two ends.
pub proof fn lemma_row_connected(g: Grid<MapTile>, x1: int, x2: int, y: int)
    requires
        forall|x: int| #![trigger is_floor(g, x, y)]
            (x1 <= x <= x2 || x2 <= x <= x1) ==> is_floor(g, x, y),
    ensures
        floor_connected(g, (x1, y), (x2, y)),
{
    let n = if x1 <= x2 { x2 - x1 + 1 } else { x1 - x2 + 1 };
    let p = Seq::new(n as nat, |i: int| if x1 <= x2 { (x1 + i, y) } else { (x1 - i, y) });
    assert forall|i: int| 0 <= i < p.len() implies is_floor(g, #[trigger] p[i].0, p[i].1) by {}
    assert forall|i: int| 0 <= i < p.len() - 1 implies adjacent4(#[trigger] p[i], p[i + 1]) by {}
    assert(floor_path(g, p));
    assert(p.last() == (x2, y));
}

/// A straight run of Floor cells in one column joins its two ends.
pub proof fn lemma_column_connected(g: Grid<MapTile>, y1: int, y2: int, x: int)
    requires
        forall|y: int| #![trigger is_floor(g, x, y)]
            (y1 <= y <= y2 || y2 <= y <= y1) ==> is_floor(g, x, y),
    ensures
        floor_connected(g, (x, y1), (x, y2)),
{
    let n = if y1 <= y2 { y2 - y1 + 1 } else { y1 - y2 + 1 };
    let p = Seq::new(n as nat, |i: int| if y1 <= y2 { (x, y1 + i) } else { (x, y1 - i) });
    assert forall|i: int| 0 <= i < p.len() implies is_floor(g, #[trigger] p[i].0, p[i].1) by {}
    assert forall|i: int| 0 <= i < p.len() - 1 implies adjacent4(#[trigger] p[i], p[i + 1]) by {}
    assert(floor_path(g, p));
    assert(p.last() == (x, y2));
}

/// Every cell of `room` becomes Floor; no other cell changes.
fn build_room(map: &mut TileMap, room: &Rect)
    requires
        old(map).0.wf(),
        room.inside(old(map).0.w(), old(map).0.h()),
    ensures
        final(map).0.wf(),
        floors_kept(old(map).0, final(map).0),
        forall|a: int, b: int|
            #![trigger final(map).0.at(a, b)]
            old(map).0.has(a, b) ==> final(map).0.at(a, b) == (if room.holds(a, b) {
                MapTile::Floor
            } else {
                old(map).0.at(a, b)
            }),
{
    let ghost g0 = map.0;
    let mut y: i64 = room.min.y as i64;
    while y <= room.max.y as i64
        invariant
            map.0.wf(),
            map.0.width == g0.width,
            map.0.height == g0.height,
            g0.wf(),
            room.inside(g0.w(), g0.h()),
            room.min.y <= y <= room.max.y + 1,
            forall|a: int, b: int|
                #![trigger map.0.at(a, b)]
                g0.has(a, b) ==> map.0.at(a, b) == (if room.holds(a, b) && b < y {
                    MapTile::Floor
                } else {
                    g0.at(a, b)
                }),
        decreases room.max.y + 1 - y,
    {
        let mut x: i64 = room.min.x as i64;
        while x <= room.max.x as i64
            invariant
                map.0.wf(),
                map.0.width == g0.width,
                map.0.height == g0.height,
                g0.wf(),
                room.inside(g0.w(), g0.h()),
                room.min.y <= y <= room.max.y,
                room.min.x <= x <= room.max.x + 1,
                forall|a: int, b: int|
                    #![trigger map.0.at(a, b)]
                    g0.has(a, b) ==> map.0.at(a, b) == (if room.holds(a, b) && (b < y || (b == y
                        && a < x)) {
                        MapTile::Floor
                    } else {
                        g0.at(a, b)
                    }),
            decreases room.max.x + 1 - x,
        {
            map.0.set(x as i32, y as i32, MapTile::Floor);
            x = x + 1;
        }
        y = y + 1;
    }
    proof {
        assert forall|a: int, b: int| #[trigger] is_floor(g0, a, b) implies is_floor(
            map.0,
            a,
            b,
        ) by {
            assert(map.0.at(a, b) == MapTile::Floor);
        }
    }
}

pub open spec fn between(v: int, a: int, b: int) -> bool {
    a <= v <= b || b <= v <= a
}

/// Cell `(x, y)` lies on the dog-leg from `a` to `b`: along row `a.y` then
/// column `b.x` when `horizontal_first`, else along column `a.x` then row `b.y`.
pub open spec fn on_dogleg(a: (int, int), b: (int, int), horizontal_first: bool, x: int, y: int) -> bool {
    if horizontal_first {
        (y == a.1 && between(x, a.0, b.0)) || (x == b.0 && between(y, a.1, b.1))
    } else {
        (x == a.0 && between(y, a.1, b.1)) || (y == b.1 && between(x, a.0, b.0))
    }
}

/// The single bend of the dog-leg from `a` to `b`.
pub open spec fn bend(a: (int, int), b: (int, int), horizontal_first: bool) -> (int, int) {
    if horizontal_first { (b.0, a.1) } else { (a.0, b.1) }
}

/// Every cell of row `y` between `x1` and `x2` becomes Floor; no other cell changes.
fn build_horizontal_tunnel(map: &mut TileMap, x1: i32, x2: i32, y: i32)
    requires
        old(map).0.wf(),
        old(map).0.has(x1 as int, y as int),
        old(map).0.has(x2 as int, y as int),
    ensures
        final(map).0.wf(),
        final(map).0.width == old(map).0.width,
        final(map).0.height == old(map).0.height,
        forall|a: int, b: int|
            #![trigger final(map).0.at(a, b)]
            old(map).0.has(a, b) ==> final(map).0.at(a, b) == (if b == y && between(a, x1 as int, x2 as int) {
                MapTile::Floor
            } else {
                old(map).0.at(a, b)
            }),
{
    let ghost g0 = map.0;
    let min = if x1 < x2 { x1 } else { x2 };
    let max = if x1 < x2 { x2 } else { x1 };
    let mut x: i64 = min as i64;
    while x <= max as i64
        invariant
            map.0.wf(),
            map.0.width == g0.width,
            map.0.height == g0.height,
            g0.wf(),
            g0.has(min as int, y as int),
            g0.has(max as int, y as int),
            min <= x <= max + 1,
            forall|a: int, b: int|
                #![trigger map.0.at(a, b)]
                g0.has(a, b) ==> map.0.at(a, b) == (if b == y && min <= a < x {
                    MapTile::Floor
                } else {
                    g0.at(a, b)
                }),
        decreases max + 1 - x,
    {
        map.0.set(x as i32, y, MapTile::Floor);
        x = x + 1;
    }
}

/// Every cell of column `x` between `y1` and `y2` becomes Floor; no other cell changes.
fn build_vertical_tunnel(map: &mut TileMap, y1: i32, y2: i32, x: i32)
    requires
        old(map).0.wf(),
        old(map).0.has(x as int, y1 as int),
        old(map).0.has(x as int, y2 as int),
    ensures
        final(map).0.wf(),
        final(map).0.width == old(map).0.width,
        final(map).0.height == old(map).0.height,
        forall|a: int, b: int|
            #![trigger final(map).0.at(a, b)]
            old(map).0.has(a, b) ==> final(map).0.at(a, b) == (if a == x && between(b, y1 as int, y2 as int) {
                MapTile::Floor
            } else {
                old(map).0.at(a, b)
            }),
{
    let ghost g0 = map.0;
    let min = if y1 < y2 { y1 } else { y2 };
    let max = if y1 < y2 { y2 } else { y1 };
    let mut y: i64 = min as i64;
    while y <= max as i64
        invariant
            map.0.wf(),
            map.0.width == g0.width,
            map.0.height == g0.height,
            g0.wf(),
            g0.has(x as int, min as int),
            g0.has(x as int, max as int),
            min <= y <= max + 1,
            forall|a: int, b: int|
                #![trigger map.0.at(a, b)]
                g0.has(a, b) ==> map.0.at(a, b) == (if a == x && min <= b < y {
                    MapTile::Floor
                } else {
                    g0.at(a, b)
                }),
        decreases max + 1 - y,
    {
        map.0.set(x, y as i32, MapTile::Floor);
        y = y + 1;
    }
}

/// Carves a dog-leg tunnel between the centres of two rooms with a single
/// bend; `horizontal_first` picks which leg starts at `room_a`. Exactly the
/// cells of the dog-leg become Floor.
fn build_tunnels_between_rooms(map: &mut TileMap, horizontal_first: bool, room_a: &Rect, room_b: &Rect)
    requires
        old(map).0.wf(),
        room_a.inside(old(map).0.w(), old(map).0.h()),
        room_b.inside(old(map).0.w(), old(map).0.h()),
    ensures
        final(map).0.wf(),
        final(map).0.width == old(map).0.width,
        final(map).0.height == old(map).0.height,
        forall|x: int, y: int|
            #![trigger final(map).0.at(x, y)]
            old(map).0.has(x, y) ==> final(map).0.at(x, y) == (if on_dogleg(
                center_of(*room_a),
                center_of(*room_b),
                horizontal_first,
                x,
                y,
            ) {
                MapTile::Floor
            } else {
                old(map).0.at(x, y)
            }),
        floors_kept(old(map).0, final(map).0),
        floor_connected(final(map).0, center_of(*room_a), bend(center_of(*room_a), center_of(*room_b), horizontal_first)),
        floor_connected(final(map).0, bend(center_of(*room_a), center_of(*room_b), horizontal_first), center_of(*room_b)),
        floor_connected(final(map).0, center_of(*room_a), center_of(*room_b)),
{
    let ghost g0 = map.0;
    let b = room_b.center();
    let a = room_a.center();
    if horizontal_first {
        build_horizontal_tunnel(map, a.x, b.x, a.y);
        build_vertical_tunnel(map, a.y, b.y, b.x);
        proof {
            assert forall|x: int| #![trigger is_floor(map.0, x, a.y as int)]
                between(x, a.x as int, b.x as int) implies is_floor(map.0, x, a.y as int) by {
                assert(map.0.at(x, a.y as int) == MapTile::Floor);
            }
            assert forall|y: int| #![trigger is_floor(map.0, b.x as int, y)]
                between(y, a.y as int, b.y as int) implies is_floor(map.0, b.x as int, y) by {
                assert(map.0.at(b.x as int, y) == MapTile::Floor);
            }
            lemma_row_connected(map.0, a.x as int, b.x as int, a.y as int);
            lemma_column_connected(map.0, a.y as int, b.y as int, b.x as int);
            lemma_connected_trans(
                map.0,
                (a.x as int, a.y as int),
                (b.x as int, a.y as int),
                (b.x as int, b.y as int),
            );
        }
    } else {
        build_vertical_tunnel(map, a.y, b.y, a.x);
        build_horizontal_tunnel(map, a.x, b.x, b.y);
        proof {
            assert forall|y: int| #![trigger is_floor(map.0, a.x as int, y)]
                between(y, a.y as int, b.y as int) implies is_floor(map.0, a.x as int, y) by {
                assert(map.0.at(a.x as int, y) == MapTile::Floor);
            }
            assert forall|x: int| #![trigger is_floor(map.0, x, b.y as int)]
                between(x, a.x as int, b.x as int) implies is_floor(map.0, x, b.y as int) by {
                assert(map.0.at(x, b.y as int) == MapTile::Floor);
            }
            lemma_column_connected(map.0, a.y as int, b.y as int, a.x as int);
            lemma_row_connected(map.0, a.x as int, b.x as int, b.y as int);
            lemma_connected_trans(
                map.0,
                (a.x as int, a.y as int),
                (a.x as int, b.y as int),
                (b.x as int, b.y as int),
            );
        }
    }
    proof {
        assert forall|x: int, y: int| #[trigger] is_floor(g0, x, y) implies is_floor(map.0, x, y) by {
            assert(g0.at(x, y) == MapTile::Floor);
        }
    }
}

/// A room placed by a random draw: inside the map with a margin of two cells,
/// its sides within the settings' size range.
pub open spec fn drawn_room_ok(settings: MapGenSettings, r: Rect) -> bool {
    &&& 2 <= r.min.x
    &&& 2 <= r.min.y
    &&& r.max.x <= settings.width - 3
    &&& r.max.y <= settings.height - 3
    &&& settings.room_min <= r.max.x - r.min.x + 1 <= settings.room_max
    &&& settings.room_min <= r.max.y - r.min.y + 1 <= settings.room_max
}

/// What generation promises of every outcome of the random draws.
pub open spec fn generated_ok(settings: MapGenSettings, map: Grid<MapTile>, rooms: Seq<Rect>) -> bool {
    &&& map.wf()
    &&& map.width == settings.width
    &&& map.height == settings.height
    &&& 1 <= rooms.len() <= settings.iterations + 1
    &&& rooms[0] == settings.first_room()
    &&& forall|i: int| 1 <= i < rooms.len() ==> drawn_room_ok(settings, #[trigger] rooms[i])
    &&& rooms_ok(map, rooms)
    &&& floors_explained(map, rooms)
}

/// The generated level: its tiles and its rooms in the order they were accepted.
pub struct MapGenerator {
    pub map: TileMap,
    pub rooms: Vec<Rect>,
}

impl MapGenerator {
    pub open spec fn ok_for(&self, settings: MapGenSettings) -> bool {
        generated_ok(settings, self.map.0, self.rooms@)
    }
}

/// The largest left or lower coordinate a room of side `size` may take on a
/// side of `dim` cells: two cells short of the far border, or 0 when none.
pub open spec fn placement_limit(dim: int, size: int) -> int {
    if dim - 1 > size + 1 { dim - 1 - (size + 1) } else { 0 }
}

/// Where a `w` by `h` room may be placed: `None` when it cannot fit (a limit of
/// 2 or less), else the largest lower-left corner; the smallest is `(2, 2)`.
pub fn placement_limits(width: u32, height: u32, w: u32, h: u32) -> (r: Option<(u32, u32)>)
    requires
        1 <= width,
        1 <= height,
    ensures
        r == if placement_limit(width as int, w as int) <= 2 || placement_limit(height as int, h as int) <= 2 {
            None
        } else {
            Some((placement_limit(width as int, w as int) as u32, placement_limit(height as int, h as int) as u32))
        },
{
    let right = (width - 1) as u64;
    let top = (height - 1) as u64;
    let max_x: u64 = if right > w as u64 + 1 { right - (w as u64 + 1) } else { 0 };
    let max_y: u64 = if top > h as u64 + 1 { top - (h as u64 + 1) } else { 0 };
    if max_x <= 2 || max_y <= 2 {
        None
    } else {
        Some((max_x as u32, max_y as u32))
    }
}

/// Whether `room` overlaps any of `rooms`.
pub fn overlaps_any(rooms: &Vec<Rect>, room: &Rect) -> (r: bool)
    ensures
        r == exists|j: int| 0 <= j < rooms@.len() && room.meets(#[trigger] rooms@[j]),
{
    let mut k: usize = 0;
    while k < rooms.len()
        invariant
            k <= rooms@.len(),
            forall|j: int| 0 <= j < k ==> !room.meets(#[trigger] rooms@[j]),
        decreases rooms@.len() - k,
    {
        if room.overlaps(&rooms[k]) {
            return true;
        }
        k = k + 1;
    }
    false
}

pub open spec fn on_some_dogleg(a: (int, int), b: (int, int), x: int, y: int) -> bool {
    on_dogleg(a, b, true, x, y) || on_dogleg(a, b, false, x, y)
}

/// Cell `(x, y)` lies in room `i`, or on a dog-leg from the centre of room
/// `i - 1` to the centre of room `i`.
pub open spec fn explained_by(rooms: Seq<Rect>, i: int, x: int, y: int) -> bool {
    rooms[i].holds(x, y) || (i >= 1 && on_some_dogleg(center_of(rooms[i - 1]), center_of(rooms[i]), x, y))
}

/// Every Floor cell lies in a room or on the tunnel into a room.
pub open spec fn floors_explained(g: Grid<MapTile>, rooms: Seq<Rect>) -> bool {
    forall|x: int, y: int|
        #[trigger] is_floor(g, x, y) ==> exists|i: int| 0 <= i < rooms.len() && #[trigger] explained_by(rooms, i, x, y)
}

impl MapGenerator {
    /// Accepts `new_room`: carves it, joins its centre to the centre of the
    /// last room by a dog-leg (`horizontal_first` picks the first leg), and
    /// appends it. Exactly the cells of the room and of the dog-leg become Floor.
    pub fn add_room(&mut self, new_room: Rect, horizontal_first: bool)
        requires
            old(self).map.0.wf(),
            old(self).rooms@.len() >= 1,
            forall|i: int| 0 <= i < old(self).rooms@.len() ==> (#[trigger] old(self).rooms@[i]).inside(
                old(self).map.0.w(),
                old(self).map.0.h(),
            ),
            new_room.inside(old(self).map.0.w(), old(self).map.0.h()),
        ensures
            final(self).rooms@ == old(self).rooms@.push(new_room),
            final(self).map.0.wf(),
            final(self).map.0.width == old(self).map.0.width,
            final(self).map.0.height == old(self).map.0.height,
            forall|x: int, y: int|
                #![trigger final(self).map.0.at(x, y)]
                old(self).map.0.has(x, y) ==> final(self).map.0.at(x, y) == (if new_room.holds(x, y) || on_dogleg(
                    center_of(old(self).rooms@.last()),
                    center_of(new_room),
                    horizontal_first,
                    x,
                    y,
                ) {
                    MapTile::Floor
                } else {
                    old(self).map.0.at(x, y)
                }),
            floor_connected(final(self).map.0, center_of(old(self).rooms@.last()), center_of(new_room)),
    {
        let ghost g0 = self.map.0;
        let prev_room = self.rooms[self.rooms.len() - 1];
        build_room(&mut self.map, &new_room);
        let ghost g1 = self.map.0;
        build_tunnels_between_rooms(&mut self.map, horizontal_first, &prev_room, &new_room);
        self.rooms.push(new_room);
    }
}

/// Carves the guaranteed room, then tries `settings.iterations` random rooms:
/// each that fits and overlaps no earlier room is carved and joined by a
/// tunnel to the room accepted before it.
fn generate_rooms(settings: &MapGenSettings, rng: &mut StdRng) -> (r: MapGenerator)
    requires
        settings.wf(),
    ensures
        r.ok_for(*settings),
{
    let mut map = TileMap(Grid::new(settings.width as usize, settings.height as usize, MapTile::Wall));
    let ghost blank = map.0;
    // the guaranteed starting room: the smallest size, centred on the map
    let smallest = settings.room_min;
    let x0 = (settings.width / 2 - smallest / 2) as i32;
    let y0 = (settings.height / 2 - smallest / 2) as i32;
    let first_room = Rect::from_position_size(x0, y0, smallest as i32, smallest as i32);
    assert(first_room == settings.first_room());
    build_room(&mut map, &first_room);
    let mut rooms: Vec<Rect> = Vec::new();
    rooms.push(first_room);
    proof {
        assert(rooms@[0].holds(first_room.min.x as int, first_room.min.y as int));
        assert forall|x: int, y: int| #[trigger] is_floor(map.0, x, y) implies exists|i: int|
            0 <= i < rooms@.len() && #[trigger] explained_by(rooms@, i, x, y) by {
            crate::grid::lemma_cell_index_bounds(blank.w(), blank.h(), x, y);
            assert(blank.at(x, y) == MapTile::Wall);
            assert(explained_by(rooms@, 0, x, y));
        }
    }
    let mut g = MapGenerator { map, rooms };
    let mut it: u32 = 0;
    while it < settings.iterations
        invariant
            settings.wf(),
            it <= settings.iterations,
            g.rooms@.len() <= it + 1,
            generated_ok(*settings, g.map.0, g.rooms@),
        decreases settings.iterations - it,
    {
        it = it + 1;
        let w = random_u32_between(rng, settings.room_min, settings.room_max);
        let h = random_u32_between(rng, settings.room_min, settings.room_max);
        let limits = placement_limits(settings.width, settings.height, w, h);
        let (max_x, max_y) = match limits {
            None => {
                // the room cannot fit: skip this attempt
                continue;
            },
            Some(l) => l,
        };
        let x = random_u32_between(rng, 2, max_x);
        let y = random_u32_between(rng, 2, max_y);
        let new_room = Rect::from_position_size(x as i32, y as i32, w as i32, h as i32);
        if !overlaps_any(&g.rooms, &new_room) {
            let ghost g0 = g.map.0;
            let ghost old_rooms = g.rooms@;
            let horizontal_first = random_coin(rng);
            g.add_room(new_room, horizontal_first);
            proof {
                let g2 = g.map.0;
                let rooms = g.rooms@;
                let prev_room = old_rooms.last();
                assert(floors_kept(g0, g2)) by {
                    assert forall|a: int, b: int| #[trigger] is_floor(g0, a, b) implies is_floor(g2, a, b) by {
                        assert(g2.at(a, b) == MapTile::Floor);
                    }
                }
                assert forall|i: int, a: int, b: int|
                    0 <= i < rooms.len() && (#[trigger] rooms[i]).holds(a, b) implies #[trigger] is_floor(g2, a, b) by {
                    if i < old_rooms.len() {
                        assert(old_rooms[i] == rooms[i]);
                        assert(is_floor(g0, a, b));
                    } else {
                        assert(g2.at(a, b) == MapTile::Floor);
                    }
                }
                assert forall|i: int, j: int|
                    0 <= i < rooms.len() && 0 <= j < rooms.len() && i != j implies !(
                    #[trigger] rooms[i]).meets(#[trigger] rooms[j]) by {
                    if i < old_rooms.len() && j < old_rooms.len() {
                        assert(!old_rooms[i].meets(old_rooms[j]));
                    } else if i < old_rooms.len() {
                        assert(!new_room.meets(old_rooms[i]));
                    } else {
                        assert(!new_room.meets(old_rooms[j]));
                    }
                }
                assert forall|i: int|
                    1 <= i < rooms.len() implies floor_connected(
                    g2,
                    center_of(#[trigger] rooms[i - 1]),
                    center_of(rooms[i]),
                ) by {
                    if i < old_rooms.len() {
                        assert(old_rooms[i - 1] == rooms[i - 1]);
                        assert(old_rooms[i] == rooms[i]);
                        lemma_connected_kept(g0, g2, center_of(old_rooms[i - 1]), center_of(old_rooms[i]));
                    } else {
                        assert(rooms[i - 1] == prev_room);
                    }
                }
                assert forall|i: int| 1 <= i < rooms.len() implies drawn_room_ok(*settings, #[trigger] rooms[i]) by {
                    if i < old_rooms.len() {
                        assert(old_rooms[i] == rooms[i]);
                    }
                }
                assert forall|i: int| 0 <= i < rooms.len() implies (#[trigger] rooms[i]).inside(g2.w(), g2.h()) by {
                    if i < old_rooms.len() {
                        assert(old_rooms[i] == rooms[i]);
                    }
                }
                assert forall|x: int, y: int| #[trigger] is_floor(g2, x, y) implies exists|i: int|
                    0 <= i < rooms.len() && #[trigger] explained_by(rooms, i, x, y) by {
                    if is_floor(g0, x, y) {
                        let i = choose|i: int| 0 <= i < old_rooms.len() && #[trigger] explained_by(old_rooms, i, x, y);
                        assert(rooms[i] == old_rooms[i]);
                        if i >= 1 {
                            assert(rooms[i - 1] == old_rooms[i - 1]);
                        }
                        assert(explained_by(rooms, i, x, y));
                    } else {
                        assert(explained_by(rooms, old_rooms.len() as int, x, y));
                    }
                }
            }
        }
    }
    g
}

/// A monster to spawn: where, and which kind (an index for
/// `MonsterBundle::get_from_index`).
#[derive(Clone, Copy, Debug, PartialEq, Eq, Structural)]
pub struct MonsterSpawn {
    pub pos: Position,
    pub kind: u32,
}

/// Where the player starts, with a cleared view and memory sized to the map.
pub struct PlayerPlacement {
    pub pos: Position,
    pub view: MapView,
    pub memory: MapMemory,
}

/// The spawns stand on distinct cells, each inside a room other than the
/// first, each of a known kind.
pub open spec fn spawns_ok(rooms: Seq<Rect>, spawns: Seq<MonsterSpawn>) -> bool {
    &&& forall|i: int, j: int|
        0 <= i < spawns.len() && 0 <= j < spawns.len() && i != j ==> (#[trigger] spawns[i]).pos
            != (#[trigger] spawns[j]).pos
    &&& forall|i: int| 0 <= i < spawns.len() ==> in_later_room(rooms, (#[trigger] spawns[i]).pos)
    &&& forall|i: int| 0 <= i < spawns.len() ==> (#[trigger] spawns[i]).kind < 2
}

/// Room `k` holds at least one of the spawns.
pub open spec fn room_has_spawn(rooms: Seq<Rect>, spawns: Seq<MonsterSpawn>, k: int) -> bool {
    exists|i: int| 0 <= i < spawns.len() && #[trigger] rooms[k].holds(spawns[i].pos.x as int, spawns[i].pos.y as int)
}

proof fn lemma_spawn_kept(rooms: Seq<Rect>, s1: Seq<MonsterSpawn>, s2: Seq<MonsterSpawn>, k: int)
    requires
        room_has_spawn(rooms, s1, k),
        s1.len() <= s2.len(),
        forall|i: int| 0 <= i < s1.len() ==> s2[i] == s1[i],
    ensures
        room_has_spawn(rooms, s2, k),
{
    let i = choose|i: int| 0 <= i < s1.len() && #[trigger] rooms[k].holds(s1[i].pos.x as int, s1[i].pos.y as int);
    assert(s2[i] == s1[i]);
    assert(rooms[k].holds(s2[i].pos.x as int, s2[i].pos.y as int));
}

/// `p` lies in some room other than the first.
pub open spec fn in_later_room(rooms: Seq<Rect>, p: Position) -> bool {
    exists|k: int| 1 <= k < rooms.len() && #[trigger] rooms[k].holds(p.x as int, p.y as int)
}

/// A cell of `room`, drawn at random.
fn get_random_ivec(rng: &mut StdRng, room: &Rect) -> (r: Position)
    requires
        room.min.x <= room.max.x,
        room.min.y <= room.max.y,
    ensures
        room.holds(r.x as int, r.y as int),
{
    let x = random_i32_between(rng, room.min.x, room.max.x);
    let y = random_i32_between(rng, room.min.y, room.max.y);
    Position { x, y }
}

fn contains_position(placed: &Vec<Position>, p: Position) -> (r: bool)
    ensures
        r == exists|i: int| 0 <= i < placed@.len() && placed@[i] == p,
{
    let mut i: usize = 0;
    while i < placed.len()
        invariant
            i <= placed@.len(),
            forall|j: int| 0 <= j < i ==> placed@[j] != p,
        decreases placed@.len() - i,
    {
        if placed[i] == p {
            return true;
        }
        i = i + 1;
    }
    false
}

impl MapGenerator {
    /// The player starts at the centre of the first room, seeing and
    /// remembering nothing yet.
    pub fn place_player(&self) -> (r: PlayerPlacement)
        requires
            self.rooms@.len() >= 1,
            self.rooms@[0].min.x <= self.rooms@[0].max.x,
            self.rooms@[0].min.y <= self.rooms@[0].max.y,
            self.map.0.wf(),
        ensures
            r.pos.x == self.rooms@[0].center_x(),
            r.pos.y == self.rooms@[0].center_y(),
            r.view.0.wf(),
            r.view.0.width == self.map.0.width,
            r.view.0.height == self.map.0.height,
            forall|i: int| 0 <= i < r.view.0.cells@.len() ==> !r.view.0.cells@[i],
            r.memory.0@.len() == self.map.0.cells@.len(),
            forall|i: int| 0 <= i < r.memory.0@.len() ==> !r.memory.0@[i],
    {
        let p = self.rooms[0].center();
        let n = self.map.0.tile_count();
        let view = MapView(Grid::new(self.map.0.width, self.map.0.height, false));
        let memory = Grid::new(n, 1, false).cells;
        PlayerPlacement { pos: p, view, memory: MapMemory(memory) }
    }

    /// Spawns monsters in every room but the first: for each room a count is
    /// drawn, then one more than that many monsters are tried, each at a
    /// random cell of the room with one retry when the cell is taken. As the
    /// rooms are disjoint, the first try in each room always succeeds.
    pub fn place_monsters(&self, settings: &MapGenSettings, rng: &mut StdRng) -> (r: Vec<MonsterSpawn>)
        requires
            settings.monsters_min <= settings.monsters_max,
            self.rooms@.len() >= 1,
            forall|i: int| 0 <= i < self.rooms@.len() ==> (#[trigger] self.rooms@[i]).min.x <= self.rooms@[i].max.x
                && self.rooms@[i].min.y <= self.rooms@[i].max.y,
            forall|i: int, j: int|
                0 <= i < self.rooms@.len() && 0 <= j < self.rooms@.len() && i != j ==> !(
                #[trigger] self.rooms@[i]).meets(#[trigger] self.rooms@[j]),
        ensures
            spawns_ok(self.rooms@, r@),
            forall|k: int| 1 <= k < self.rooms@.len() ==> room_has_spawn(self.rooms@, r@, k),
            r@.len() <= (self.rooms@.len() - 1) * (settings.monsters_max + 1),
    {
        let mut placed: Vec<Position> = Vec::new();
        let mut spawns: Vec<MonsterSpawn> = Vec::new();
        let ghost mut homes: Seq<int> = Seq::empty();
        let mut k: usize = 1;
        while k < self.rooms.len()
            invariant
                1 <= k <= self.rooms@.len(),
                forall|i: int| 0 <= i < self.rooms@.len() ==> (#[trigger] self.rooms@[i]).min.x <= self.rooms@[i].max.x
                    && self.rooms@[i].min.y <= self.rooms@[i].max.y,
                forall|i: int, j: int|
                    0 <= i < self.rooms@.len() && 0 <= j < self.rooms@.len() && i != j ==> !(
                    #[trigger] self.rooms@[i]).meets(#[trigger] self.rooms@[j]),
                settings.monsters_min <= settings.monsters_max,
                placed@.len() == spawns@.len(),
                forall|i: int| 0 <= i < spawns@.len() ==> (#[trigger] spawns@[i]).pos == placed@[i],
                spawns_ok(self.rooms@, spawns@),
                homes.len() == spawns@.len(),
                forall|i: int| 0 <= i < homes.len() ==> 1 <= #[trigger] homes[i] < k
                    && self.rooms@[homes[i]].holds(spawns@[i].pos.x as int, spawns@[i].pos.y as int),
                forall|j: int| 1 <= j < k ==> room_has_spawn(self.rooms@, spawns@, j),
                spawns@.len() <= (k - 1) * (settings.monsters_max + 1),
            decreases self.rooms@.len() - k,
        {
            let room = self.rooms[k];
            let count = random_u32_between(rng, settings.monsters_min, settings.monsters_max);
            let ghost base = spawns@.len();
            let mut m: u64 = 0;
            while m <= count as u64
                invariant
                    1 <= k < self.rooms@.len(),
                    room == self.rooms@[k as int],
                    room.min.x <= room.max.x,
                    room.min.y <= room.max.y,
                    forall|i: int, j: int|
                        0 <= i < self.rooms@.len() && 0 <= j < self.rooms@.len() && i != j ==> !(
                        #[trigger] self.rooms@[i]).meets(#[trigger] self.rooms@[j]),
                    count <= settings.monsters_max,
                    m <= count as u64 + 1,
                    placed@.len() == spawns@.len(),
                    forall|i: int| 0 <= i < spawns@.len() ==> (#[trigger] spawns@[i]).pos == placed@[i],
                    spawns_ok(self.rooms@, spawns@),
                    homes.len() == spawns@.len(),
                    forall|i: int| 0 <= i < homes.len() ==> 1 <= #[trigger] homes[i] <= k
                        && self.rooms@[homes[i]].holds(spawns@[i].pos.x as int, spawns@[i].pos.y as int),
                    m == 0 ==> forall|i: int| 0 <= i < homes.len() ==> #[trigger] homes[i] < k,
                    m >= 1 ==> room_has_spawn(self.rooms@, spawns@, k as int),
                    forall|j: int| 1 <= j < k ==> room_has_spawn(self.rooms@, spawns@, j),
                    base <= (k - 1) * (settings.monsters_max + 1),
                    spawns@.len() <= base + m,
                decreases count as u64 + 1 - m,
            {
                let ghost len0 = spawns@.len();
                let mut attempt: u32 = 0;
                let mut done = false;
                while attempt < 2 && !done
                    invariant
                        1 <= k < self.rooms@.len(),
                        room == self.rooms@[k as int],
                        room.min.x <= room.max.x,
                        room.min.y <= room.max.y,
                        forall|i: int, j: int|
                            0 <= i < self.rooms@.len() && 0 <= j < self.rooms@.len() && i != j ==> !(
                            #[trigger] self.rooms@[i]).meets(#[trigger] self.rooms@[j]),
                        attempt <= 2,
                        placed@.len() == spawns@.len(),
                        forall|i: int| 0 <= i < spawns@.len() ==> (#[trigger] spawns@[i]).pos == placed@[i],
                        spawns_ok(self.rooms@, spawns@),
                        homes.len() == spawns@.len(),
                        forall|i: int| 0 <= i < homes.len() ==> 1 <= #[trigger] homes[i] <= k
                            && self.rooms@[homes[i]].holds(spawns@[i].pos.x as int, spawns@[i].pos.y as int),
                        m == 0 && !done ==> forall|i: int| 0 <= i < homes.len() ==> #[trigger] homes[i] < k,
                        m == 0 && attempt >= 1 ==> done,
                        m >= 1 ==> room_has_spawn(self.rooms@, spawns@, k as int),
                        done ==> room_has_spawn(self.rooms@, spawns@, k as int),
                        forall|j: int| 1 <= j < k ==> room_has_spawn(self.rooms@, spawns@, j),
                        spawns@.len() == len0 + if done { 1int } else { 0int },
                    decreases 2 - attempt,
                {
                    attempt = attempt + 1;
                    let p = get_random_ivec(rng, &room);
                    if contains_position(&placed, p) {
                        proof {
                            if m == 0 {
                                let i = choose|i: int| 0 <= i < placed@.len() && placed@[i] == p;
                                assert(spawns@[i].pos == p);
                                assert(homes[i] < k);
                                assert(self.rooms@[homes[i]].meets(self.rooms@[k as int]));
                            }
                        }
                    } else {
                        let kind = random_u32_between(rng, 0, MonsterBundle::max_index() - 1);
                        let ghost old_spawns = spawns@;
                        placed.push(p);
                        spawns.push(MonsterSpawn { pos: p, kind });
                        proof {
                            homes = homes.push(k as int);
                            assert forall|i: int, j: int|
                                0 <= i < spawns@.len() && 0 <= j < spawns@.len() && i != j implies (
                                #[trigger] spawns@[i]).pos != (#[trigger] spawns@[j]).pos by {
                                if i < old_spawns.len() && j < old_spawns.len() {
                                    assert(old_spawns[i] == spawns@[i] && old_spawns[j] == spawns@[j]);
                                } else if i < old_spawns.len() {
                                    assert(placed@[i] == spawns@[i].pos);
                                } else {
                                    assert(placed@[j] == spawns@[j].pos);
                                }
                            }
                            assert forall|i: int| 0 <= i < spawns@.len() implies in_later_room(
                                self.rooms@,
                                (#[trigger] spawns@[i]).pos,
                            ) by {
                                if i < old_spawns.len() {
                                    assert(old_spawns[i] == spawns@[i]);
                                } else {
                                    assert(self.rooms@[k as int].holds(spawns@[i].pos.x as int, spawns@[i].pos.y as int));
                                }
                            }
                            assert forall|i: int| 0 <= i < spawns@.len() implies (#[trigger] spawns@[i]).kind < 2 by {
                                if i < old_spawns.len() {
                                    assert(old_spawns[i] == spawns@[i]);
                                }
                            }
                            assert forall|i: int| 0 <= i < homes.len() implies 1 <= #[trigger] homes[i] <= k
                                && self.rooms@[homes[i]].holds(spawns@[i].pos.x as int, spawns@[i].pos.y as int) by {
                                if i < old_spawns.len() {
                                    assert(old_spawns[i] == spawns@[i]);
                                }
                            }
                            assert forall|j: int| 1 <= j < k implies room_has_spawn(self.rooms@, spawns@, j) by {
                                lemma_spawn_kept(self.rooms@, old_spawns, spawns@, j);
                            }
                            if m >= 1 {
                                lemma_spawn_kept(self.rooms@, old_spawns, spawns@, k as int);
                            }
                            assert(self.rooms@[k as int].holds(
                                spawns@[old_spawns.len() as int].pos.x as int,
                                spawns@[old_spawns.len() as int].pos.y as int,
                            ));
                        }
                        done = true;
                    }
                }
                m = m + 1;
            }
            proof {
                let mm = settings.monsters_max as int;
                let kk = k as int;
                assert((kk - 1) * (mm + 1) + (mm + 1) == kk * (mm + 1)) by (nonlinear_arith);
            }
            k = k + 1;
        }
        spawns
    }

    /// Generates a level from `settings.seed`: rooms and tunnels, then the
    /// monsters, all drawn from one generator seeded with it.
    pub fn build(settings: &MapGenSettings) -> (r: (MapGenerator, Vec<MonsterSpawn>))
        requires
            settings.wf(),
        ensures
            r.0.ok_for(*settings),
            spawns_ok(r.0.rooms@, r.1@),
            forall|k: int| 1 <= k < r.0.rooms@.len() ==> room_has_spawn(r.0.rooms@, r.1@, k),
            r.1@.len() <= (r.0.rooms@.len() - 1) * (settings.monsters_max + 1),
    {
        let mut rng = seeded_rng(settings.seed);
        let generator = generate_rooms(settings, &mut rng);
        let spawns = generator.place_monsters(settings, &mut rng);
        (generator, spawns)
    }
}

/// No two rooms of a generated level overlap.
pub proof fn lemma_rooms_never_overlap(settings: MapGenSettings, g: MapGenerator, i: int, j: int)
    requires
        g.ok_for(settings),
        0 <= i < g.rooms@.len(),
        0 <= j < g.rooms@.len(),
        i != j,
    ensures
        !g.rooms@[i].meets(g.rooms@[j]),
{
}

/// In a generated level every room after the first is joined to the room
/// accepted just before it by a 4-connected path of Floor cells between their
/// centres.
pub proof fn lemma_rooms_chained(settings: MapGenSettings, g: MapGenerator, i: int)
    requires
        g.ok_for(settings),
        1 <= i < g.rooms@.len(),
    ensures
        floor_connected(g.map.0, center_of(g.rooms@[i - 1]), center_of(g.rooms@[i])),
{
}

} // verus!
