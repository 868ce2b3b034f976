use vstd::prelude::*;
use crate::grid::{Grid, Position};
use crate::map::{MapTile, TileMap};

verus! {

/// A blocking actor as the index sees it: its identifier and its cell.
#[derive(Clone, Copy, Debug, PartialEq, Eq, Structural)]
pub struct PathBlocker {
    pub id: usize,
    pub pos: Position,
}

/// A walkability grid: `true` where a cell blocks movement.
pub struct PathMap2d {
    pub grid: Grid<bool>,
}

impl PathMap2d {
    /// A `width` by `height` grid with nothing blocked.
    pub fn new(width: usize, height: usize) -> (r: PathMap2d)
        requires
            width * height <= usize::MAX,
        ensures
            r.grid.wf(),
            r.grid.width == width,
            r.grid.height == height,
            forall|i: int| 0 <= i < r.grid.cells@.len() ==> !r.grid.cells@[i],
    {
        PathMap2d { grid: Grid::new(width, height, false) }
    }

    pub fn grid(&self) -> (r: &Grid<bool>)
        ensures
            *r == self.grid,
    {
        &self.grid
    }

    pub fn size(&self) -> (r: (usize, usize))
        ensures
            r == (self.grid.width, self.grid.height),
    {
        (self.grid.width, self.grid.height)
    }

    /// Unblocks every cell.
    pub fn clear(&mut self)
        requires
            old(self).grid.wf(),
        ensures
            final(self).grid.wf(),
            final(self).grid.width == old(self).grid.width,
            final(self).grid.height == old(self).grid.height,
            forall|i: int| 0 <= i < final(self).grid.cells@.len() ==> !final(self).grid.cells@[i],
    {
        self.grid.fill(false);
    }
}

/// The obstacle grid: walls and blocking actors.
pub struct MapObstacles(pub PathMap2d);

impl Default for MapObstacles {
    fn default() -> (r: MapObstacles)
        ensures
            r.0.grid.wf(),
            r.0.grid.width == 0,
            r.0.grid.height == 0,
    {
        MapObstacles(PathMap2d::new(0, 0))
    }
}

/// The occupancy grid: which actor, if any, stands on each cell.
pub struct MapActors(pub Grid<Option<usize>>);

impl Default for MapActors {
    fn default() -> (r: MapActors)
        ensures
            r.0.wf(),
            r.0.width == 0,
            r.0.height == 0,
    {
        MapActors(Grid::new(0, 0, None))
    }
}

/// The actor recorded at `(x, y)`: the last blocker of `bs` standing there.
pub open spec fn occupant(bs: Seq<PathBlocker>, x: int, y: int) -> Option<usize>
    decreases bs.len(),
{
    if bs.len() == 0 {
        None
    } else if bs.last().pos.x == x && bs.last().pos.y == y {
        Some(bs.last().id)
    } else {
        occupant(bs.drop_last(), x, y)
    }
}

/// The identifiers of the blockers that stand off a `w` by `h` map, in order.
pub open spec fn off_map_ids(bs: Seq<PathBlocker>, w: int, h: int) -> Seq<usize>
    decreases bs.len(),
{
    if bs.len() == 0 {
        Seq::empty()
    } else if 0 <= bs.last().pos.x < w && 0 <= bs.last().pos.y < h {
        off_map_ids(bs.drop_last(), w, h)
    } else {
        off_map_ids(bs.drop_last(), w, h).push(bs.last().id)
    }
}

/// Both grids match the map's shape and agree with the map and the blockers:
/// a cell is an obstacle exactly when it is a wall or a blocker stands on it.
pub open spec fn index_matches(
    map: Grid<MapTile>,
    bs: Seq<PathBlocker>,
    obstacles: Grid<bool>,
    actors: Grid<Option<usize>>,
) -> bool {
    &&& obstacles.wf()
    &&& actors.wf()
    &&& obstacles.width == map.width
    &&& obstacles.height == map.height
    &&& actors.width == map.width
    &&& actors.height == map.height
    &&& forall|x: int, y: int|
        #![trigger obstacles.at(x, y)]
        #![trigger actors.at(x, y)]
        map.has(x, y) ==> {
            &&& obstacles.at(x, y) == (map.at(x, y) == MapTile::Wall || occupant(
                bs,
                x,
                y,
            ) is Some)
            &&& actors.at(x, y) == occupant(bs, x, y)
        }
}

/// Rebuilds the obstacle and occupancy grids from the map and the blockers'
/// positions when `changed`; otherwise leaves both as they are. Returns the
/// identifiers of blockers found off the map, which are skipped.
pub fn update_map_state_system(
    map: &TileMap,
    blockers: &Vec<PathBlocker>,
    changed: bool,
    obstacles: &mut MapObstacles,
    actors: &mut MapActors,
) -> (skipped: Vec<usize>)
    requires
        map.0.wf(),
        old(obstacles).0.grid.wf(),
        old(actors).0.wf(),
    ensures
        final(obstacles).0.grid.wf(),
        final(actors).0.wf(),
        !changed ==> final(obstacles).0.grid == old(obstacles).0.grid && final(actors).0
            == old(actors).0 && skipped@.len() == 0,
        changed ==> index_matches(map.0, blockers@, final(obstacles).0.grid, final(actors).0),
        changed ==> skipped@ == off_map_ids(blockers@, map.0.w(), map.0.h()),
{
    if !changed {
        return Vec::new();
    }
    let w = map.0.width;
    let h = map.0.height;
    let n = map.0.tile_count();
    if obstacles.0.grid.width != w || obstacles.0.grid.height != h {
        obstacles.0 = PathMap2d::new(w, h);
    }
    if actors.0.width != w || actors.0.height != h {
        actors.0 = Grid::new(w, h, None);
    }
    let mut i: usize = 0;
    while i < n
        invariant
            i <= n,
            n == w * h,
            map.0.wf(),
            w == map.0.width,
            h == map.0.height,
            obstacles.0.grid.wf(),
            obstacles.0.grid.width == w,
            obstacles.0.grid.height == h,
            forall|j: int|
                0 <= j < i ==> obstacles.0.grid.cells@[j] == (map.0.cells@[j] == MapTile::Wall),
        decreases n - i,
    {
        let wall = map.0.cells[i] == MapTile::Wall;
        obstacles.0.grid.cells.set(i, wall);
        i = i + 1;
    }
    actors.0.fill(None);
    proof {
        assert forall|x: int, y: int|
            #![trigger obstacles.0.grid.at(x, y)]
            #![trigger actors.0.at(x, y)]
            map.0.has(x, y) implies {
            &&& obstacles.0.grid.at(x, y) == (map.0.at(x, y) == MapTile::Wall || occupant(
                blockers@.take(0),
                x,
                y,
            ) is Some)
            &&& actors.0.at(x, y) == occupant(blockers@.take(0), x, y)
        } by {
            crate::grid::lemma_cell_index_bounds(w as int, h as int, x, y);
        }
        assert(off_map_ids(blockers@.take(0), w as int, h as int) =~= Seq::empty());
    }
    let mut skipped: Vec<usize> = Vec::new();
    let mut k: usize = 0;
    while k < blockers.len()
        invariant
            k <= blockers@.len(),
            map.0.wf(),
            w == map.0.width,
            h == map.0.height,
            index_matches(map.0, blockers@.take(k as int), obstacles.0.grid, actors.0),
            skipped@ == off_map_ids(blockers@.take(k as int), w as int, h as int),
        decreases blockers@.len() - k,
    {
        let b = blockers[k];
        let ghost before = blockers@.take(k as int);
        let ghost after = blockers@.take(k as int + 1);
        assert(after.drop_last() =~= before);
        assert(after.last() == b);
        if map.0.in_bounds(b.pos.x, b.pos.y) {
            obstacles.0.grid.set(b.pos.x, b.pos.y, true);
            actors.0.set(b.pos.x, b.pos.y, Some(b.id));
        } else {
            skipped.push(b.id);
        }
        k = k + 1;
    }
    assert(blockers@.take(blockers@.len() as int) =~= blockers@);
    skipped
}

} // verus!
