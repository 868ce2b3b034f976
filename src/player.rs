use vstd::prelude::*;
use bracket_random::prelude::RandomNumberGenerator;
use crate::combat::{
    ActorEffect, AttackDice, CombatantBundle, Defense, HitPoints, MaxHitPoints, Strength,
    TargetEvent,
};
use crate::grid::{cell_index, Grid, Position};
use crate::map_state::{MapActors, MapObstacles};
use crate::random::roll_dice;
use crate::turn_system::{Energy, Speed};
use crate::visibility::ViewRange;

verus! {

/// What the player is spawned with.
pub struct PlayerBundle {
    pub name: String,
    pub glyph: char,
    pub speed: Speed,
    pub combatant_bundle: CombatantBundle,
    pub view_range: ViewRange,
}

impl PlayerBundle {
    pub fn new() -> (r: PlayerBundle)
        ensures
            r.name@ == "Player"@,
            r.glyph == '@',
            r.speed == Speed(25),
            r.combatant_bundle == (CombatantBundle {
                hp: HitPoints(60),
                max_hp: MaxHitPoints(60),
                defense: Defense(1),
                strength: Strength(3),
                attack_dice: AttackDice { n_dice: 5, die_type: 3, bonus: 0 },
            }),
            r.view_range == ViewRange(5),
    {
        PlayerBundle {
            name: "Player".to_owned(),
            glyph: '@',
            speed: Speed(25),
            combatant_bundle: CombatantBundle {
                hp: HitPoints(60),
                max_hp: MaxHitPoints(60),
                defense: Defense(1),
                strength: Strength(3),
                attack_dice: AttackDice::new(5, 3, 0),
            },
            view_range: ViewRange(5),
        }
    }
}

impl Default for PlayerBundle {
    fn default() -> (r: PlayerBundle)
        ensures
            r.name@ == "Player"@,
            r.speed == Speed(25),
            r.view_range == ViewRange(5),
    {
        PlayerBundle::new()
    }
}

/// The player's input for one turn.
#[derive(Clone, Copy, Debug, PartialEq, Eq, Structural)]
pub enum PlayerCommand {
    /// Nothing was pressed.
    Idle,
    /// Pass the turn.
    Wait,
    /// Move, or attack what stands in the way, by `(dx, dy)`.
    Move(i32, i32),
}

/// Whether `(x, y)` lies on `grid`.
pub fn is_in_bounds(grid: &Grid<bool>, x: i64, y: i64) -> (r: bool)
    ensures
        r == grid.has(x as int, y as int),
{
    x >= 0 && y >= 0 && (x as u64) < grid.width as u64 && (y as u64) < grid.height as u64
}

/// The player's turn as it must come out, given the state before it.
pub open spec fn player_turn_ok(
    cmd: PlayerCommand,
    player: usize,
    pos: Position,
    energy: Energy,
    dice: AttackDice,
    obstacles: Grid<bool>,
    actors: Grid<Option<usize>>,
    is_monster: Seq<bool>,
    new_pos: Position,
    new_energy: Energy,
    new_obstacles: Grid<bool>,
    new_actors: Grid<Option<usize>>,
    attack: Option<TargetEvent>,
) -> bool {
    let unchanged = new_pos == pos && new_obstacles == obstacles && new_actors == actors;
    match cmd {
        PlayerCommand::Idle => unchanged && new_energy == energy && attack is None,
        PlayerCommand::Wait => unchanged && new_energy == Energy(0) && attack is None,
        PlayerCommand::Move(dx, dy) => {
            let nx = pos.x + dx;
            let ny = pos.y + dy;
            let w = obstacles.w();
            if (dx == 0 && dy == 0) || !obstacles.has(pos.x as int, pos.y as int) || !obstacles.has(nx, ny) {
                unchanged && new_energy == energy && attack is None
            } else if obstacles.at(nx, ny) {
                let occ = actors.at(nx, ny);
                if occ is Some && occ->0 < is_monster.len() && is_monster[occ->0 as int] {
                    &&& unchanged
                    &&& new_energy == Energy(0)
                    &&& attack is Some
                    &&& attack->0.actor == player
                    &&& attack->0.target == occ->0
                    &&& attack->0.effect is Damage
                    &&& dice.lowest() <= attack->0.effect->Damage_0 <= dice.highest()
                } else {
                    unchanged && new_energy == energy && attack is None
                }
            } else {
                &&& new_pos == Position { x: nx as i32, y: ny as i32 }
                &&& new_energy == Energy(0)
                &&& attack is None
                &&& new_obstacles.width == obstacles.width
                &&& new_obstacles.height == obstacles.height
                &&& new_actors.width == actors.width
                &&& new_actors.height == actors.height
                &&& new_actors.cells@ == actors.cells@.update(cell_index(w, pos.x as int, pos.y as int), None).update(
                    cell_index(w, nx, ny),
                    Some(player),
                )
                &&& new_obstacles.cells@ == obstacles.cells@.update(cell_index(w, pos.x as int, pos.y as int), false).update(
                    cell_index(w, nx, ny),
                    true,
                )
            }
        },
    }
}

/// The player's turn. Waiting ends it. A move onto an open cell steps there,
/// keeping both grids in step, and ends the turn. A move into a blocked cell
/// where a monster stands attacks it with a roll of the player's dice and
/// ends the turn; any other blocked or off-grid move does nothing.
pub fn player_input(
    cmd: PlayerCommand,
    player: usize,
    pos: &mut Position,
    energy: &mut Energy,
    dice: AttackDice,
    obstacles: &mut MapObstacles,
    actors: &mut MapActors,
    is_monster: &Vec<bool>,
    rng: &mut RandomNumberGenerator,
) -> (attack: Option<TargetEvent>)
    requires
        old(obstacles).0.grid.wf(),
        old(actors).0.wf(),
        old(obstacles).0.grid.width == old(actors).0.width,
        old(obstacles).0.grid.height == old(actors).0.height,
        old(obstacles).0.grid.width <= i32::MAX,
        old(obstacles).0.grid.height <= i32::MAX,
        dice.rollable(),
    ensures
        player_turn_ok(
            cmd,
            player,
            *old(pos),
            *old(energy),
            dice,
            old(obstacles).0.grid,
            old(actors).0,
            is_monster@,
            *final(pos),
            *final(energy),
            final(obstacles).0.grid,
            final(actors).0,
            attack,
        ),
{
    let (dx, dy) = match cmd {
        PlayerCommand::Idle => {
            return None;
        },
        PlayerCommand::Wait => {
            *energy = Energy(0);
            return None;
        },
        PlayerCommand::Move(dx, dy) => (dx, dy),
    };
    if dx == 0 && dy == 0 {
        return None;
    }
    let curr = *pos;
    let rolled = roll_dice(rng, dice.n_dice, dice.die_type);
    let damage = rolled + dice.bonus;
    let nx: i64 = curr.x as i64 + dx as i64;
    let ny: i64 = curr.y as i64 + dy as i64;
    if !is_in_bounds(&obstacles.0.grid, curr.x as i64, curr.y as i64) || !is_in_bounds(
        &obstacles.0.grid,
        nx,
        ny,
    ) {
        return None;
    }
    let next = Position { x: nx as i32, y: ny as i32 };
    if obstacles.0.grid.get(next.x, next.y) {
        match actors.0.get(next.x, next.y) {
            Some(target) => {
                if target < is_monster.len() && is_monster[target] {
                    *energy = Energy(0);
                    return Some(TargetEvent { actor: player, target, effect: ActorEffect::Damage(damage) });
                }
            },
            None => {},
        }
        return None;
    }
    *pos = next;
    *energy = Energy(0);
    actors.0.set(curr.x, curr.y, None);
    actors.0.set(next.x, next.y, Some(player));
    obstacles.0.grid.set(curr.x, curr.y, false);
    obstacles.0.grid.set(next.x, next.y, true);
    None
}

} // verus!
