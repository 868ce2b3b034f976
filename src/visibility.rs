use vstd::prelude::*;
use crate::grid::{cell_index, in_rect, Grid, Position};
use crate::map::{MapTile, TileMap};

verus! {

/// Every cell an actor has ever seen, one flag per map cell.
pub struct MapMemory(pub Vec<bool>);

/// The cells an actor sees now.
pub struct MapView(pub Grid<bool>);

/// How far an actor sees, in cells.
#[derive(Clone, Copy, Debug, PartialEq, Eq, Structural)]
pub struct ViewRange(pub u32);

/// The cells that adam_fov_rs's `compute_fov` marks visible from `(x, y)` out to
/// `range` on a `width` by `height` grid whose opaque cells are flagged in
/// `opaque`, one flag per cell.
pub uninterp spec fn fov_of(opaque: Seq<bool>, width: nat, height: nat, x: int, y: int, range: nat) -> Seq<bool>;

/// What `compute_fov` needs to run without overflow: a modest range and an
/// origin far enough from the ends of `i32`.
pub open spec fn fov_args_ok(x: int, y: int, range: int) -> bool {
    &&& 0 <= range <= 10000
    &&& i32::MIN + range + 2 <= x <= i32::MAX - range - 2
    &&& i32::MIN + range + 2 <= y <= i32::MAX - range - 2
}

/// Whether each cell blocks sight: walls do.
pub open spec fn opacity(cells: Seq<MapTile>) -> Seq<bool> {
    cells.map_values(|t: MapTile| t == MapTile::Wall)
}

/// One flag per cell of `map`: whether it blocks sight (a wall).
pub fn opacity_of(map: &TileMap) -> (r: Vec<bool>)
    requires
        map.0.wf(),
    ensures
        r@ == opacity(map.0.cells@),
{
    let n = map.0.cells.len();
    let mut r: Vec<bool> = Vec::with_capacity(n);
    let mut i: usize = 0;
    while i < n
        invariant
            i <= n,
            n == map.0.cells@.len(),
            r@.len() == i,
            forall|j: int| 0 <= j < i ==> r@[j] == (map.0.cells@[j] == MapTile::Wall),
        decreases n - i,
    {
        r.push(map.0.cells[i] == MapTile::Wall);
        i = i + 1;
    }
    assert(r@ =~= opacity(map.0.cells@));
    r
}

/// Whether `(x, y)` blocks sight: off the grid, or flagged opaque.
pub fn is_opaque_cell(opaque: &Vec<bool>, width: u32, height: u32, x: i32, y: i32) -> (r: bool)
    ensures
        opaque@.len() == width * height ==> r == (!in_rect(width as int, height as int, x as int, y as int)
            || opaque@[cell_index(width as int, x as int, y as int)]),
{
    if x < 0 || y < 0 || x as u32 >= width || y as u32 >= height {
        return true;
    }
    proof {
        crate::grid::lemma_cell_index_bounds(width as int, height as int, x as int, y as int);
        assert((y as int) * (width as int) + (x as int) < 0x1_0000_0000_0000_0000) by (nonlinear_arith)
            requires
                0 <= x < 0x1_0000_0000,
                0 <= y < 0x1_0000_0000,
                0 <= width < 0x1_0000_0000;
    }
    let i: u64 = y as u64 * width as u64 + x as u64;
    if i >= opaque.len() as u64 {
        return true;
    }
    opaque[i as usize]
}

/// Flags `(x, y)` as seen when it lies on the grid (and `seen` has one flag
/// per cell); no other flag changes.
pub fn mark_seen(seen: &mut Vec<bool>, width: u32, height: u32, x: i32, y: i32)
    ensures
        final(seen)@ == if old(seen)@.len() == width * height && in_rect(width as int, height as int, x as int, y as int) {
            old(seen)@.update(cell_index(width as int, x as int, y as int), true)
        } else {
            old(seen)@
        },
{
    if x < 0 || y < 0 || x as u32 >= width || y as u32 >= height {
        return;
    }
    proof {
        assert((width as int) * (height as int) < 0x1_0000_0000_0000_0000) by (nonlinear_arith)
            requires
                0 <= width < 0x1_0000_0000,
                0 <= height < 0x1_0000_0000;
    }
    if seen.len() as u64 != width as u64 * height as u64 {
        return;
    }
    proof {
        crate::grid::lemma_cell_index_bounds(width as int, height as int, x as int, y as int);
        assert((y as int) * (width as int) + (x as int) < 0x1_0000_0000_0000_0000) by (nonlinear_arith)
            requires
                0 <= x < 0x1_0000_0000,
                0 <= y < 0x1_0000_0000,
                0 <= width < 0x1_0000_0000;
    }
    let i: u64 = y as u64 * width as u64 + x as u64;
    seen.set(i as usize, true);
}

/// Relies on adam_fov_rs's `compute_fov`, which marks the origin first and
/// then only on-grid cells; the flags it leaves are named by `fov_of`.
#[verifier::external_body]
fn field_of_view(opaque: &Vec<bool>, width: u32, height: u32, x: i32, y: i32, range: u32) -> (r: Vec<bool>)
    requires
        opaque@.len() == width * height,
        fov_args_ok(x as int, y as int, range as int),
    ensures
        r@ == fov_of(opaque@, width as nat, height as nat, x as int, y as int, range as nat),
        r@.len() == width * height,
        in_rect(width as int, height as int, x as int, y as int) ==> r@[cell_index(width as int, x as int, y as int)],
{
    let mut seen = vec![false; opaque.len()];
    adam_fov_rs::compute_fov(
        adam_fov_rs::IVec2::new(x, y),
        range as usize,
        [width, height],
        |p: adam_fov_rs::IVec2| is_opaque_cell(opaque, width, height, p.x, p.y),
        |p: adam_fov_rs::IVec2| mark_seen(&mut seen, width, height, p.x, p.y),
    );
    seen
}

/// The cells visible to an actor at `pos` on `map`.
pub open spec fn view_of(map: Grid<MapTile>, pos: Position, range: ViewRange) -> Seq<bool> {
    fov_of(opacity(map.cells@), map.width as nat, map.height as nat, pos.x as int, pos.y as int, range.0 as nat)
}

/// Recomputes the view of an actor that moved: sized to the map, holding
/// exactly the cells visible from `pos`. An actor that did not move keeps
/// its view.
pub fn view_system(view: &mut MapView, map: &TileMap, pos: Position, range: ViewRange, moved: bool)
    requires
        map.0.wf(),
        map.0.width <= u32::MAX,
        map.0.height <= u32::MAX,
        fov_args_ok(pos.x as int, pos.y as int, range.0 as int),
    ensures
        !moved ==> final(view).0 == old(view).0,
        moved ==> final(view).0.wf(),
        moved ==> final(view).0.width == map.0.width && final(view).0.height == map.0.height,
        moved ==> final(view).0.cells@ == view_of(map.0, pos, range),
        moved && map.0.has(pos.x as int, pos.y as int) ==> final(view).0.at(pos.x as int, pos.y as int),
{
    if !moved {
        return;
    }
    let opaque = opacity_of(map);
    let seen = field_of_view(&opaque, map.0.width as u32, map.0.height as u32, pos.x, pos.y, range.0);
    view.0 = Grid { width: map.0.width, height: map.0.height, cells: seen };
}

/// Memory after a view: every cell seen now is remembered; nothing is forgotten.
pub open spec fn remember(memory: Seq<bool>, seen: Seq<bool>) -> Seq<bool> {
    Seq::new(memory.len(), |i: int| memory[i] || seen[i])
}

/// Memory as it stands before a view is added: kept when it matches the map's
/// cell count, otherwise a fresh memory of nothing.
pub open spec fn sized_memory(memory: Seq<bool>, n: nat) -> Seq<bool> {
    if memory.len() == n {
        memory
    } else {
        Seq::new(n, |i: int| false)
    }
}

/// Recomputes the view of an actor that moved, as `view_system` does, and adds
/// what it sees to its memory. An actor that did not move keeps both.
pub fn view_memory_system(
    view: &mut MapView,
    memory: &mut MapMemory,
    map: &TileMap,
    pos: Position,
    range: ViewRange,
    moved: bool,
)
    requires
        map.0.wf(),
        map.0.width <= u32::MAX,
        map.0.height <= u32::MAX,
        fov_args_ok(pos.x as int, pos.y as int, range.0 as int),
    ensures
        !moved ==> final(view).0 == old(view).0 && final(memory).0@ == old(memory).0@,
        moved ==> final(view).0.wf(),
        moved ==> final(view).0.width == map.0.width && final(view).0.height == map.0.height,
        moved ==> final(view).0.cells@ == view_of(map.0, pos, range),
        moved && map.0.has(pos.x as int, pos.y as int) ==> final(view).0.at(pos.x as int, pos.y as int),
        moved ==> final(memory).0@ == remember(
            sized_memory(old(memory).0@, map.0.cells@.len()),
            final(view).0.cells@,
        ),
{
    if !moved {
        return;
    }
    view_system(view, map, pos, range, moved);
    update_memory(memory, &view.0);
}

/// Adds the cells of `seen` to `memory`; a memory sized for another map is
/// first replaced by a fresh one of the right size.
pub fn update_memory(memory: &mut MapMemory, seen: &Grid<bool>)
    requires
        seen.wf(),
    ensures
        final(memory).0@ == remember(sized_memory(old(memory).0@, seen.cells@.len()), seen.cells@),
{
    let n = seen.tile_count();
    if memory.0.len() != n {
        let mut fresh: Vec<bool> = Vec::with_capacity(n);
        let mut j: usize = 0;
        while j < n
            invariant
                j <= n,
                fresh@.len() == j,
                forall|k: int| 0 <= k < j ==> !fresh@[k],
            decreases n - j,
        {
            fresh.push(false);
            j = j + 1;
        }
        memory.0 = fresh;
        assert(memory.0@ =~= sized_memory(old(memory).0@, n as nat));
    }
    let ghost base = memory.0@;
    let ghost sc = seen.cells@;
    let mut i: usize = 0;
    while i < n
        invariant
            i <= n,
            seen.wf(),
            seen.cells@ == sc,
            n == sc.len(),
            memory.0@.len() == n,
            base.len() == n,
            forall|k: int| 0 <= k < i ==> memory.0@[k] == (base[k] || sc[k]),
            forall|k: int| i <= k < n ==> memory.0@[k] == base[k],
        decreases n - i,
    {
        let ghost m0 = memory.0@;
        if seen.cells[i] {
            memory.0.set(i, true);
        }
        assert(memory.0@[i as int] == (base[i as int] || sc[i as int]));
        assert(forall|k: int| 0 <= k < n && k != i ==> memory.0@[k] == m0[k]);
        i = i + 1;
    }
    assert(memory.0@ =~= remember(base, seen.cells@));
}

/// Remembered cells are never forgotten: along any run of views on a map of
/// `n` cells, whatever was remembered at the start is remembered at the end.
pub proof fn lemma_memory_never_shrinks(mems: Seq<Seq<bool>>, views: Seq<Seq<bool>>, n: nat)
    requires
        mems.len() == views.len() + 1,
        mems[0].len() == n,
        forall|k: int| 0 <= k < views.len() ==> mems[k + 1] == remember(
            sized_memory(#[trigger] mems[k], n),
            views[k],
        ),
    ensures
        mems.last().len() == n,
        forall|i: int| 0 <= i < n && mems[0][i] ==> mems.last()[i],
    decreases views.len(),
{
    if views.len() > 0 {
        let m = mems.drop_last();
        let v = views.drop_last();
        assert forall|k: int| 0 <= k < v.len() implies m[k + 1] == remember(
            sized_memory(#[trigger] m[k], n),
            v[k],
        ) by {
            assert(m[k] == mems[k] && m[k + 1] == mems[k + 1] && v[k] == views[k]);
        }
        lemma_memory_never_shrinks(m, v, n);
        assert(m.last() == mems[views.len() - 1]);
        assert(mems.last() == mems[views.len() as int]);
    }
}

} // verus!
