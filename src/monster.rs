use vstd::prelude::*;
use bracket_random::prelude::RandomNumberGenerator;
use controlled_astar::{AStar, Node};
use crate::combat::{
    ActorEffect, AttackDice, CombatantBundle, Defense, HitPoints, MaxHitPoints, Strength,
    TargetEvent,
};
use crate::grid::{cell_index, in_rect, Grid, Position};
use crate::map_state::{MapActors, MapObstacles};
use crate::random::roll_dice;
use crate::turn_system::{Energy, Speed};
use crate::visibility::{MapView, ViewRange};

verus! {

/// What a monster is spawned with.
pub struct MonsterBundle {
    pub name: String,
    pub glyph: char,
    pub speed: Speed,
    pub combatant_bundle: CombatantBundle,
    pub view_range: ViewRange,
}

impl MonsterBundle {
    pub fn new_goblin() -> (r: MonsterBundle)
        ensures
            r.name@ == "Goblin"@,
            r.glyph == 'g',
            r.speed == Speed(20),
            r.combatant_bundle == (CombatantBundle {
                hp: HitPoints(15),
                max_hp: MaxHitPoints(15),
                defense: Defense(0),
                strength: Strength(1),
                attack_dice: AttackDice { n_dice: 1, die_type: 4, bonus: 0 },
            }),
            r.view_range == ViewRange(4),
    {
        MonsterBundle {
            name: "Goblin".to_owned(),
            glyph: 'g',
            speed: Speed(20),
            combatant_bundle: CombatantBundle {
                hp: HitPoints(15),
                max_hp: MaxHitPoints(15),
                defense: Defense(0),
                strength: Strength(1),
                attack_dice: AttackDice::new(1, 4, 0),
            },
            view_range: ViewRange(4),
        }
    }

    pub fn new_orc() -> (r: MonsterBundle)
        ensures
            r.name@ == "Orc"@,
            r.glyph == 'o',
            r.speed == Speed(15),
            r.combatant_bundle == (CombatantBundle {
                hp: HitPoints(25),
                max_hp: MaxHitPoints(25),
                defense: Defense(1),
                strength: Strength(3),
                attack_dice: AttackDice { n_dice: 2, die_type: 6, bonus: 0 },
            }),
            r.view_range == ViewRange(4),
    {
        MonsterBundle {
            name: "Orc".to_owned(),
            glyph: 'o',
            speed: Speed(15),
            combatant_bundle: CombatantBundle {
                hp: HitPoints(25),
                max_hp: MaxHitPoints(25),
                defense: Defense(1),
                strength: Strength(3),
                attack_dice: AttackDice::new(2, 6, 0),
            },
            view_range: ViewRange(4),
        }
    }

    /// The monster kind numbered `index`: 1 is an orc, anything else a goblin.
    pub fn get_from_index(index: u32) -> (r: MonsterBundle)
        ensures
            index == 1 ==> r.name@ == "Orc"@ && r.glyph == 'o',
            index != 1 ==> r.name@ == "Goblin"@ && r.glyph == 'g',
    {
        match index {
            0 => MonsterBundle::new_goblin(),
            1 => MonsterBundle::new_orc(),
            _ => MonsterBundle::new_goblin(),
        }
    }

    /// The number of monster kinds.
    pub fn max_index() -> (r: u32)
        ensures
            r == 2,
    {
        2
    }
}

/// The rows of an obstacle grid as the path search reads them: row `y`, column
/// `x` holds 1 where the cell is blocked and 0 where it is open.
pub open spec fn rows_of(w: int, h: int, cells: Seq<bool>) -> Seq<Seq<i32>> {
    Seq::new(h as nat, |y: int| Seq::new(w as nat, |x: int| if cells[cell_index(w, x, y)] { 1i32 } else { 0i32 }))
}

pub open spec fn deep_rows(rows: Seq<Vec<i32>>) -> Seq<Seq<i32>> {
    rows.map_values(|r: Vec<i32>| r@)
}

/// Converts the obstacle grid into rows of 0 and 1 for the path search.
fn grid_bool_to_vec_vec_i32(grid: &Grid<bool>) -> (r: Vec<Vec<i32>>)
    requires
        grid.wf(),
    ensures
        deep_rows(r@) == rows_of(grid.w(), grid.h(), grid.cells@),
{
    let width = grid.width;
    let height = grid.height;
    let n = grid.tile_count();
    let mut result: Vec<Vec<i32>> = Vec::new();
    let mut y: usize = 0;
    while y < height
        invariant
            grid.wf(),
            width == grid.width,
            height == grid.height,
            n == width * height,
            y <= height,
            result@.len() == y,
            forall|j: int| 0 <= j < y ==> (#[trigger] result@[j])@ == rows_of(grid.w(), grid.h(), grid.cells@)[j],
        decreases height - y,
    {
        let mut row: Vec<i32> = Vec::new();
        let mut x: usize = 0;
        while x < width
            invariant
                grid.wf(),
                width == grid.width,
                height == grid.height,
                n == width * height,
                y < height,
                x <= width,
                row@.len() == x,
                forall|i: int| 0 <= i < x ==> row@[i] == (if grid.at(i, y as int) { 1i32 } else { 0i32 }),
            decreases width - x,
        {
            proof {
                crate::grid::lemma_cell_index_bounds(width as int, height as int, x as int, y as int);
                assert((y as int) * (width as int) + (x as int) < n);
            }
            let i = y * width + x;
            row.push(if grid.cells[i] { 1 } else { 0 });
            x = x + 1;
        }
        assert(row@ =~= rows_of(grid.w(), grid.h(), grid.cells@)[y as int]);
        result.push(row);
        y = y + 1;
    }
    assert(deep_rows(result@) =~= rows_of(grid.w(), grid.h(), grid.cells@));
    result
}

/// The path that controlled_astar's search returns from `start` to `goal` over
/// `rows` (1 = blocked), or `None` when it reports an error or no path.
pub uninterp spec fn astar_path(rows: Seq<Seq<i32>>, start: (usize, usize), goal: (usize, usize)) -> Option<Seq<(usize, usize)>>;

/// The node that the search keys by `key` exists and is not blocked: row
/// `key.0`, column `key.1` holds something other than 1.
pub open spec fn node_open(rows: Seq<Seq<i32>>, key: (usize, usize)) -> bool {
    key.0 < rows.len() && key.1 < rows[key.0 as int].len() && rows[key.0 as int][key.1 as int] != 1
}

pub open spec fn path_view(p: Option<Vec<(usize, usize)>>) -> Option<Seq<(usize, usize)>> {
    match p {
        Some(v) => Some(v@),
        None => None,
    }
}

/// Relies on controlled_astar: `Node::grid_to_nodes` builds a node for each
/// cell with its four neighbours (it panics on an empty grid), and
/// `AStar::find_shortest_path` searches them; a path it returns begins at
/// `start` and ends at `goal`. Before searching, it checks the node keyed
/// `start` and the node keyed `goal` (row first, unlike the search itself):
/// when either is missing or blocked (cell 1) it reports an error, here `None`.
/// The result is named by `astar_path`.
#[verifier::external_body]
fn find_path(rows: &Vec<Vec<i32>>, start: (usize, usize), goal: (usize, usize)) -> (r: Option<Vec<(usize, usize)>>)
    requires
        rows@.len() > 0,
        rows@[0]@.len() > 0,
    ensures
        path_view(r) == astar_path(deep_rows(rows@), start, goal),
        r matches Some(p) ==> p@.len() >= 1 && p@[0] == start && p@.last() == goal,
        !node_open(deep_rows(rows@), start) || !node_open(deep_rows(rows@), goal) ==> r is None,
{
    let mut astar = AStar::new(Node::grid_to_nodes(rows));
    match astar.find_shortest_path(start, goal) {
        Ok(Some(path)) => Some(path),
        Ok(None) => None,
        Err(_) => None,
    }
}

/// What a monster does on its turn.
#[derive(Clone, Copy, Debug, PartialEq, Eq, Structural)]
pub enum MonsterAction {
    Attack,
    MoveTo(Position),
    Wait,
}

/// The cell `(x, y)` is on the grid and open.
pub open spec fn open_cell(w: int, h: int, cells: Seq<bool>, x: int, y: int) -> bool {
    in_rect(w, h, x, y) && !cells[cell_index(w, x, y)]
}

/// The decision for a path: attack when it has exactly two cells (the
/// monster and its target side by side); step to its second cell when it is
/// longer and that cell is open; otherwise wait.
pub open spec fn action_for_path(w: int, h: int, cells: Seq<bool>, path: Option<Seq<(usize, usize)>>) -> MonsterAction {
    match path {
        None => MonsterAction::Wait,
        Some(p) => if p.len() == 2 {
            MonsterAction::Attack
        } else if p.len() > 2 && open_cell(w, h, cells, p[1].0 as int, p[1].1 as int) {
            MonsterAction::MoveTo(Position { x: p[1].0 as i32, y: p[1].1 as i32 })
        } else {
            MonsterAction::Wait
        },
    }
}

/// Decides a monster's action from the path found to the player.
pub fn decide_monster_action(obstacles: &Grid<bool>, path: &Option<Vec<(usize, usize)>>) -> (r: MonsterAction)
    requires
        obstacles.wf(),
        obstacles.width <= i32::MAX,
        obstacles.height <= i32::MAX,
    ensures
        r == action_for_path(obstacles.w(), obstacles.h(), obstacles.cells@, path_view(*path)),
{
    match path {
        None => MonsterAction::Wait,
        Some(p) => {
            if p.len() == 2 {
                MonsterAction::Attack
            } else if p.len() > 2 {
                let (x, y) = p[1];
                if x < obstacles.width && y < obstacles.height && !obstacles.get(x as i32, y as i32) {
                    MonsterAction::MoveTo(Position { x: x as i32, y: y as i32 })
                } else {
                    MonsterAction::Wait
                }
            } else {
                MonsterAction::Wait
            }
        },
    }
}

/// The obstacle grid with the cells of `a` and `b` opened.
pub open spec fn search_grid(g: Grid<bool>, a: Position, b: Position) -> Seq<bool> {
    g.cells@.update(crate::grid::cell_index(g.w(), a.x as int, a.y as int), false).update(
        crate::grid::cell_index(g.w(), b.x as int, b.y as int),
        false,
    )
}

/// The monster and the player stand on the obstacle grid, and the player's
/// cell lies on the monster's view grid.
pub open spec fn monster_on_grid(obstacles: Grid<bool>, view: Grid<bool>, pos: Position, player_pos: Position) -> bool {
    &&& obstacles.has(pos.x as int, pos.y as int)
    &&& obstacles.has(player_pos.x as int, player_pos.y as int)
    &&& view.has(player_pos.x as int, player_pos.y as int)
}

/// The monster sees the player and both stand on the grid.
pub open spec fn monster_engages(
    obstacles: Grid<bool>,
    view: Grid<bool>,
    pos: Position,
    player_pos: Position,
) -> bool {
    &&& monster_on_grid(obstacles, view, pos, player_pos)
    &&& view.at(player_pos.x as int, player_pos.y as int)
}

/// Why a monster's turn could not be played.
#[derive(Clone, Copy, Debug, PartialEq, Eq, Structural)]
pub enum MonsterTurnError {
    /// The monster or the player stands off the grids.
    OffGrid,
}

/// The monster's turn as it must come out: the grids, its position and the
/// attack it emits, given the grids before and the path search's answer.
pub open spec fn monster_turn_ok(
    obstacles: Grid<bool>,
    actors: Grid<Option<usize>>,
    pos: Position,
    player_pos: Position,
    monster: usize,
    player: usize,
    dice: AttackDice,
    new_obstacles: Grid<bool>,
    new_actors: Grid<Option<usize>>,
    new_pos: Position,
    attack: Option<TargetEvent>,
) -> bool {
    let w = obstacles.w();
    let cells = search_grid(obstacles, pos, player_pos);
    let path = astar_path(
        rows_of(w, obstacles.h(), cells),
        (pos.x as usize, pos.y as usize),
        (player_pos.x as usize, player_pos.y as usize),
    );
    &&& new_obstacles.width == obstacles.width
    &&& new_obstacles.height == obstacles.height
    &&& new_actors.width == actors.width
    &&& new_actors.height == actors.height
    &&& new_obstacles.cells@ == cells.update(cell_index(w, new_pos.x as int, new_pos.y as int), true).update(
        cell_index(w, player_pos.x as int, player_pos.y as int),
        true,
    )
    &&& match action_for_path(w, obstacles.h(), cells, path) {
        MonsterAction::Attack => {
            &&& new_pos == pos
            &&& new_actors == actors
            &&& attack is Some
            &&& attack->0.actor == monster
            &&& attack->0.target == player
            &&& attack->0.effect is Damage
            &&& dice.lowest() <= attack->0.effect->Damage_0 <= dice.highest()
        },
        MonsterAction::MoveTo(q) => {
            &&& new_pos == q
            &&& new_actors.cells@ == actors.cells@.update(cell_index(w, pos.x as int, pos.y as int), None).update(
                cell_index(w, q.x as int, q.y as int),
                Some(monster),
            )
            &&& attack is None
        },
        MonsterAction::Wait => new_pos == pos && new_actors == actors && attack is None,
    }
}

/// One turn of a monster. When it sees the player and both stand on the grid,
/// it opens both cells of the obstacle grid, searches a path to the player and
/// attacks (a roll of its dice) or steps as `action_for_path` decides, then
/// blocks both cells again. Otherwise it does nothing, and reports
/// `OffGrid` when a position lay off the grids. Either way its energy drops
/// to zero, ending its turn.
pub fn monster_ai(
    obstacles: &mut MapObstacles,
    actors: &mut MapActors,
    monster: usize,
    pos: &mut Position,
    energy: &mut Energy,
    dice: AttackDice,
    view: &MapView,
    player: usize,
    player_pos: Position,
    rng: &mut RandomNumberGenerator,
) -> (r: Result<Option<TargetEvent>, MonsterTurnError>)
    requires
        old(obstacles).0.grid.wf(),
        old(actors).0.wf(),
        old(obstacles).0.grid.width == old(actors).0.width,
        old(obstacles).0.grid.height == old(actors).0.height,
        old(obstacles).0.grid.width <= i32::MAX,
        old(obstacles).0.grid.height <= i32::MAX,
        view.0.wf(),
        dice.rollable(),
    ensures
        final(energy).0 == 0,
        r is Err <==> !monster_on_grid(old(obstacles).0.grid, view.0, *old(pos), player_pos),
        !monster_engages(old(obstacles).0.grid, view.0, *old(pos), player_pos) ==> final(obstacles).0.grid
            == old(obstacles).0.grid && final(actors).0 == old(actors).0 && *final(pos) == *old(pos)
            && (r is Err || r == Ok::<Option<TargetEvent>, MonsterTurnError>(None)),
        monster_engages(old(obstacles).0.grid, view.0, *old(pos), player_pos) ==> monster_turn_ok(
            old(obstacles).0.grid,
            old(actors).0,
            *old(pos),
            player_pos,
            monster,
            player,
            dice,
            final(obstacles).0.grid,
            final(actors).0,
            *final(pos),
            r->Ok_0,
        ) && r is Ok,
{
    let on_grid = obstacles.0.grid.in_bounds(pos.x, pos.y) && obstacles.0.grid.in_bounds(
        player_pos.x,
        player_pos.y,
    ) && view.0.in_bounds(player_pos.x, player_pos.y);
    if !on_grid {
        *energy = Energy(0);
        return Err(MonsterTurnError::OffGrid);
    }
    if !view.0.get(player_pos.x, player_pos.y) {
        *energy = Energy(0);
        return Ok(None);
    }
    let ghost g0 = obstacles.0.grid;
    let ghost a0 = actors.0;
    let start = *pos;
    obstacles.0.grid.set(start.x, start.y, false);
    obstacles.0.grid.set(player_pos.x, player_pos.y, false);
    assert(obstacles.0.grid.cells@ == search_grid(g0, start, player_pos));
    let rows = grid_bool_to_vec_vec_i32(&obstacles.0.grid);
    proof {
        let rs = rows_of(g0.w(), g0.h(), obstacles.0.grid.cells@);
        assert(rs.len() == g0.h());
        assert(g0.h() >= 1 && g0.w() >= 1);
        assert(deep_rows(rows@).len() == rows@.len());
        assert(rows@.len() >= 1);
        assert(deep_rows(rows@)[0] == rows@[0]@);
        assert(rs[0].len() == g0.w());
    }
    let path = find_path(&rows, (start.x as usize, start.y as usize), (player_pos.x as usize, player_pos.y as usize));
    let action = decide_monster_action(&obstacles.0.grid, &path);
    let mut attack: Option<TargetEvent> = None;
    match action {
        MonsterAction::Attack => {
            let rolled = roll_dice(rng, dice.n_dice, dice.die_type);
            let damage = rolled + dice.bonus;
            attack = Some(TargetEvent { actor: monster, target: player, effect: ActorEffect::Damage(damage) });
        },
        MonsterAction::MoveTo(q) => {
            actors.0.set(start.x, start.y, None);
            *pos = q;
            actors.0.set(q.x, q.y, Some(monster));
        },
        MonsterAction::Wait => {},
    }
    let end = *pos;
    obstacles.0.grid.set(end.x, end.y, true);
    obstacles.0.grid.set(player_pos.x, player_pos.y, true);
    *energy = Energy(0);
    Ok(attack)
}

} // verus!
