use vstd::prelude::*;
use crate::grid::Position;
use crate::grid::Grid;
use crate::map::MapTile;
use crate::map_state::{index_matches, occupant, MapActors, MapObstacles, PathBlocker};

verus! {

#[derive(Clone, Copy, Debug, PartialEq, Eq, Structural)]
pub struct MaxHitPoints(pub i32);

#[derive(Clone, Copy, Debug, PartialEq, Eq, Structural)]
pub struct HitPoints(pub i32);

#[derive(Clone, Copy, Debug, PartialEq, Eq, Structural)]
pub struct Defense(pub i32);

#[derive(Clone, Copy, Debug, PartialEq, Eq, Structural)]
pub struct Strength(pub i32);

/// Dice in the classic `n d die + bonus` form.
#[derive(Clone, Copy, Debug, PartialEq, Eq, Structural)]
pub struct AttackDice {
    pub n_dice: i32,
    pub die_type: i32,
    pub bonus: i32,
}

impl AttackDice {
    pub fn new(n_dice: i32, die_type: i32, bonus: i32) -> (r: AttackDice)
        ensures
            r == (AttackDice { n_dice, die_type, bonus }),
    {
        AttackDice { n_dice, die_type, bonus }
    }

    /// Dice that can be rolled without overflow: each die has at least one
    /// face and every total fits an `i32`.
    pub open spec fn rollable(&self) -> bool {
        &&& 0 <= self.n_dice
        &&& 1 <= self.die_type < i32::MAX
        &&& self.n_dice * self.die_type <= i32::MAX
        &&& i32::MIN <= self.n_dice + self.bonus
        &&& self.n_dice * self.die_type + self.bonus <= i32::MAX
    }

    pub open spec fn lowest(&self) -> int {
        self.n_dice + self.bonus
    }

    pub open spec fn highest(&self) -> int {
        self.n_dice * self.die_type + self.bonus
    }
}

/// The combat stats an actor is spawned with.
#[derive(Clone, Copy, Debug, PartialEq, Eq, Structural)]
pub struct CombatantBundle {
    pub hp: HitPoints,
    pub max_hp: MaxHitPoints,
    pub defense: Defense,
    pub strength: Strength,
    pub attack_dice: AttackDice,
}

/// What an effect does to its target.
#[derive(Clone, Copy, Debug, PartialEq, Eq, Structural)]
pub enum ActorEffect {
    Heal(i32),
    Damage(i32),
}

/// An effect directed by one actor at another, both named by their index.
#[derive(Clone, Copy, Debug, PartialEq, Eq, Structural)]
pub struct TargetEvent {
    pub actor: usize,
    pub target: usize,
    pub effect: ActorEffect,
}

/// A notice that an actor died, carrying its name.
pub struct ActorKilledEvent {
    pub name: String,
}

/// The combat record of one live actor. `strength` is absent for actors that
/// cannot attack.
#[derive(Clone, Copy, Debug, PartialEq, Eq, Structural)]
pub struct Combatant {
    pub hp: HitPoints,
    pub max_hp: MaxHitPoints,
    pub defense: Defense,
    pub strength: Option<Strength>,
    pub pos: Position,
}

/// An effect that changed its target: who did it, to whom, and the amount
/// applied (after clamping or mitigation).
#[derive(Clone, Copy, Debug, PartialEq, Eq, Structural)]
pub struct CombatOutcome {
    pub actor: usize,
    pub target: usize,
    pub effect: ActorEffect,
}

pub open spec fn min_int(a: int, b: int) -> int {
    if a < b { a } else { b }
}

/// The live combatant at index `i`, if any.
pub open spec fn live(cs: Seq<Option<Combatant>>, i: int) -> bool {
    0 <= i < cs.len() && cs[i] is Some
}

/// The amount an effect applies to its target, or `None` when it does nothing:
/// a heal is clamped to the missing hit points; damage is reduced by the
/// target's defense and needs an attacker with strength.
pub open spec fn applied_amount(cs: Seq<Option<Combatant>>, ev: TargetEvent) -> Option<int> {
    let t = ev.target as int;
    let a = ev.actor as int;
    match ev.effect {
        ActorEffect::Heal(n) => {
            if live(cs, t) {
                let c = cs[t]->0;
                let amount = min_int(n as int, c.max_hp.0 - c.hp.0);
                if amount <= 0 { None } else { Some(amount) }
            } else {
                None
            }
        },
        ActorEffect::Damage(n) => {
            if live(cs, a) && cs[a]->0.strength is Some && live(cs, t) {
                let amount = n - cs[t]->0.defense.0;
                if amount <= 0 { None } else { Some(amount) }
            } else {
                None
            }
        },
    }
}

/// Hit points after damage; they may fall to zero or below, bottoming out at
/// the smallest `i32`.
pub open spec fn hp_after_damage(hp: int, amount: int) -> int {
    if hp - amount < i32::MIN { i32::MIN as int } else { hp - amount }
}

/// The combatants after one effect.
pub open spec fn apply_effect(cs: Seq<Option<Combatant>>, ev: TargetEvent) -> Seq<Option<Combatant>> {
    let t = ev.target as int;
    match applied_amount(cs, ev) {
        None => cs,
        Some(amount) => {
            let c = cs[t]->0;
            let hp = match ev.effect {
                ActorEffect::Heal(_) => c.hp.0 + amount,
                ActorEffect::Damage(_) => hp_after_damage(c.hp.0 as int, amount),
            };
            cs.update(t, Some(Combatant { hp: HitPoints(hp as i32), ..c }))
        },
    }
}

/// The record of one effect, when it changed its target.
pub open spec fn effect_outcome(cs: Seq<Option<Combatant>>, ev: TargetEvent) -> Option<CombatOutcome> {
    match applied_amount(cs, ev) {
        None => None,
        Some(amount) => Some(
            CombatOutcome {
                actor: ev.actor,
                target: ev.target,
                effect: match ev.effect {
                    ActorEffect::Heal(_) => ActorEffect::Heal(amount as i32),
                    ActorEffect::Damage(_) => ActorEffect::Damage(amount as i32),
                },
            },
        ),
    }
}

/// The combatants after every effect of `evs`, in order.
pub open spec fn resolve_all(cs: Seq<Option<Combatant>>, evs: Seq<TargetEvent>) -> Seq<Option<Combatant>>
    decreases evs.len(),
{
    if evs.len() == 0 {
        cs
    } else {
        apply_effect(resolve_all(cs, evs.drop_last()), evs.last())
    }
}

/// The records of the effects of `evs` that changed their target, in order.
pub open spec fn outcomes_all(cs: Seq<Option<Combatant>>, evs: Seq<TargetEvent>) -> Seq<CombatOutcome>
    decreases evs.len(),
{
    if evs.len() == 0 {
        Seq::empty()
    } else {
        let prev = outcomes_all(cs, evs.drop_last());
        match effect_outcome(resolve_all(cs, evs.drop_last()), evs.last()) {
            Some(o) => prev.push(o),
            None => prev,
        }
    }
}

/// Applies one effect to its target.
pub fn apply_target_event(combatants: &mut Vec<Option<Combatant>>, ev: TargetEvent) -> (r: Option<
    CombatOutcome,
>)
    ensures
        final(combatants)@ == apply_effect(old(combatants)@, ev),
        r == effect_outcome(old(combatants)@, ev),
{
    let t = ev.target;
    let a = ev.actor;
    if t >= combatants.len() {
        return None;
    }
    let c = match combatants[t] {
        Some(c) => c,
        None => {
            return None;
        },
    };
    match ev.effect {
        ActorEffect::Heal(n) => {
            let missing: i64 = c.max_hp.0 as i64 - c.hp.0 as i64;
            let amount: i64 = if (n as i64) < missing { n as i64 } else { missing };
            if amount <= 0 {
                return None;
            }
            let hp = (c.hp.0 as i64 + amount) as i32;
            combatants.set(t, Some(Combatant { hp: HitPoints(hp), ..c }));
            Some(CombatOutcome { actor: a, target: t, effect: ActorEffect::Heal(amount as i32) })
        },
        ActorEffect::Damage(n) => {
            if a >= combatants.len() {
                return None;
            }
            let can_attack = match combatants[a] {
                Some(attacker) => attacker.strength.is_some(),
                None => false,
            };
            if !can_attack {
                return None;
            }
            let amount: i64 = n as i64 - c.defense.0 as i64;
            if amount <= 0 {
                return None;
            }
            let raw: i64 = c.hp.0 as i64 - amount;
            let hp: i32 = if raw < i32::MIN as i64 { i32::MIN } else { raw as i32 };
            combatants.set(t, Some(Combatant { hp: HitPoints(hp), ..c }));
            Some(CombatOutcome { actor: a, target: t, effect: ActorEffect::Damage(amount as i32) })
        },
    }
}

/// Applies the queued effects one at a time in queue order, and returns the
/// record of each that changed its target.
pub fn resolve_target_events(combatants: &mut Vec<Option<Combatant>>, events: &Vec<TargetEvent>) -> (r: Vec<
    CombatOutcome,
>)
    ensures
        final(combatants)@ == resolve_all(old(combatants)@, events@),
        r@ == outcomes_all(old(combatants)@, events@),
{
    let mut log: Vec<CombatOutcome> = Vec::new();
    let mut k: usize = 0;
    while k < events.len()
        invariant
            k <= events@.len(),
            combatants@ == resolve_all(old(combatants)@, events@.take(k as int)),
            log@ == outcomes_all(old(combatants)@, events@.take(k as int)),
        decreases events@.len() - k,
    {
        let ev = events[k];
        assert(events@.take(k as int + 1).drop_last() =~= events@.take(k as int));
        let o = apply_target_event(combatants, ev);
        match o {
            Some(x) => log.push(x),
            None => {},
        }
        k = k + 1;
    }
    assert(events@.take(events@.len() as int) =~= events@);
    log
}

/// The indices of the live combatants at zero hit points or below, in order.
pub open spec fn dead_ids(cs: Seq<Option<Combatant>>) -> Seq<int>
    decreases cs.len(),
{
    if cs.len() == 0 {
        Seq::empty()
    } else {
        let prev = dead_ids(cs.drop_last());
        if cs.last() is Some && cs.last()->0.hp.0 <= 0 {
            prev.push(cs.len() - 1)
        } else {
            prev
        }
    }
}

pub open spec fn is_dead(c: Option<Combatant>) -> bool {
    c is Some && c->0.hp.0 <= 0
}

/// Some dead combatant of `cs` stood at `(x, y)`.
pub open spec fn dead_at(cs: Seq<Option<Combatant>>, x: int, y: int) -> bool {
    exists|i: int| 0 <= i < cs.len() && #[trigger] is_dead(cs[i]) && cs[i]->0.pos.x == x && cs[i]->0.pos.y == y
}

/// The indices of the dead combatants standing off a `w` by `h` grid, in order.
pub open spec fn dead_off_grid(cs: Seq<Option<Combatant>>, w: int, h: int) -> Seq<usize>
    decreases cs.len(),
{
    if cs.len() == 0 {
        Seq::empty()
    } else {
        let prev = dead_off_grid(cs.drop_last(), w, h);
        if is_dead(cs.last()) && !crate::grid::in_rect(w, h, cs.last()->0.pos.x as int, cs.last()->0.pos.y as int) {
            prev.push((cs.len() - 1) as usize)
        } else {
            prev
        }
    }
}

proof fn lemma_dead_at_extend(cs: Seq<Option<Combatant>>, n: int)
    requires
        0 <= n < cs.len(),
    ensures
        forall|x: int, y: int| #[trigger] dead_at(cs.take(n + 1), x, y) <==> (dead_at(cs.take(n), x, y) || (
            is_dead(cs[n]) && cs[n]->0.pos.x == x && cs[n]->0.pos.y == y)),
{
    let before = cs.take(n);
    let after = cs.take(n + 1);
    assert forall|x: int, y: int| #[trigger] dead_at(after, x, y) <==> (dead_at(before, x, y) || (
        is_dead(cs[n]) && cs[n]->0.pos.x == x && cs[n]->0.pos.y == y)) by {
        if dead_at(after, x, y) {
            let q = choose|q: int|
                0 <= q < after.len() && #[trigger] is_dead(after[q]) && after[q]->0.pos.x == x && after[q]->0.pos.y == y;
            if q < n {
                assert(before[q] == after[q]);
            }
        }
        if dead_at(before, x, y) {
            let q = choose|q: int|
                0 <= q < before.len() && #[trigger] is_dead(before[q]) && before[q]->0.pos.x == x && before[q]->0.pos.y == y;
            assert(after[q] == before[q]);
        }
        if is_dead(cs[n]) && cs[n]->0.pos.x == x && cs[n]->0.pos.y == y {
            assert(is_dead(after[n]));
        }
    }
}

/// What the death pass did: a notice per victim, and the victims whose
/// position lay off the grid, whose cells could not be cleared.
pub struct DeathReport {
    pub killed: Vec<ActorKilledEvent>,
    pub off_grid: Vec<usize>,
}

/// Removes every combatant at zero hit points or below, clears the cell it
/// stood on in both grids, and returns a notice with its name for each, in
/// index order, together with the victims that stood off the grid.
pub fn death_system(
    combatants: &mut Vec<Option<Combatant>>,
    names: &Vec<String>,
    obstacles: &mut MapObstacles,
    actors: &mut MapActors,
) -> (r: DeathReport)
    requires
        names@.len() == old(combatants)@.len(),
        old(obstacles).0.grid.wf(),
        old(actors).0.wf(),
        old(obstacles).0.grid.width == old(actors).0.width,
        old(obstacles).0.grid.height == old(actors).0.height,
    ensures
        final(combatants)@.len() == old(combatants)@.len(),
        forall|i: int|
            0 <= i < old(combatants)@.len() ==> #[trigger] final(combatants)@[i] == if is_dead(
                old(combatants)@[i],
            ) {
                None
            } else {
                old(combatants)@[i]
            },
        final(obstacles).0.grid.wf(),
        final(actors).0.wf(),
        final(obstacles).0.grid.width == old(obstacles).0.grid.width,
        final(obstacles).0.grid.height == old(obstacles).0.grid.height,
        final(actors).0.width == old(actors).0.width,
        final(actors).0.height == old(actors).0.height,
        forall|x: int, y: int|
            #![trigger final(obstacles).0.grid.at(x, y)]
            #![trigger final(actors).0.at(x, y)]
            old(obstacles).0.grid.has(x, y) ==> if dead_at(old(combatants)@, x, y) {
                !final(obstacles).0.grid.at(x, y) && final(actors).0.at(x, y) is None
            } else {
                final(obstacles).0.grid.at(x, y) == old(obstacles).0.grid.at(x, y)
                    && final(actors).0.at(x, y) == old(actors).0.at(x, y)
            },
        r.killed@.len() == dead_ids(old(combatants)@).len(),
        forall|k: int|
            0 <= k < r.killed@.len() ==> (#[trigger] r.killed@[k]).name == names@[dead_ids(
                old(combatants)@,
            )[k]],
        r.off_grid@ == dead_off_grid(old(combatants)@, old(obstacles).0.grid.w(), old(obstacles).0.grid.h()),
{
    let n = combatants.len();
    let ghost orig = combatants@;
    let ghost g0 = obstacles.0.grid;
    let ghost a0 = actors.0;
    let mut killed: Vec<ActorKilledEvent> = Vec::new();
    let mut off_grid: Vec<usize> = Vec::new();
    let mut i: usize = 0;
    while i < n
        invariant
            i <= n,
            n == orig.len(),
            n == names@.len(),
            combatants@.len() == n,
            forall|j: int|
                0 <= j < n ==> #[trigger] combatants@[j] == if j < i && is_dead(orig[j]) {
                    None
                } else {
                    orig[j]
                },
            obstacles.0.grid.wf(),
            actors.0.wf(),
            g0.wf(),
            obstacles.0.grid.width == g0.width,
            obstacles.0.grid.height == g0.height,
            actors.0.width == g0.width,
            actors.0.height == g0.height,
            a0.width == g0.width,
            a0.height == g0.height,
            forall|x: int, y: int|
                #![trigger obstacles.0.grid.at(x, y)]
                #![trigger actors.0.at(x, y)]
                g0.has(x, y) ==> if dead_at(orig.take(i as int), x, y) {
                    !obstacles.0.grid.at(x, y) && actors.0.at(x, y) is None
                } else {
                    obstacles.0.grid.at(x, y) == g0.at(x, y) && actors.0.at(x, y) == a0.at(x, y)
                },
            killed@.len() == dead_ids(orig.take(i as int)).len(),
            forall|k: int|
                0 <= k < killed@.len() ==> (#[trigger] killed@[k]).name == names@[dead_ids(
                    orig.take(i as int),
                )[k]],
            off_grid@ == dead_off_grid(orig.take(i as int), g0.w(), g0.h()),
        decreases n - i,
    {
        let ghost before = orig.take(i as int);
        let ghost after = orig.take(i as int + 1);
        proof {
            assert(after.drop_last() =~= before);
            assert(after.last() == orig[i as int]);
            lemma_dead_at_extend(orig, i as int);
        }
        let entry = combatants[i];
        if let Some(c) = entry {
            if c.hp.0 <= 0 {
                combatants.set(i, None);
                if obstacles.0.grid.in_bounds(c.pos.x, c.pos.y) {
                    obstacles.0.grid.set(c.pos.x, c.pos.y, false);
                    actors.0.set(c.pos.x, c.pos.y, None);
                } else {
                    off_grid.push(i);
                }
                killed.push(ActorKilledEvent { name: names[i].clone() });
                assert(dead_ids(after) == dead_ids(before).push(i as int));
            }
        }
        i = i + 1;
    }
    assert(orig.take(n as int) =~= orig);
    DeathReport { killed, off_grid }
}

/// The live combatants as blockers for the index, identified by index.
pub open spec fn live_blockers(cs: Seq<Option<Combatant>>) -> Seq<PathBlocker>
    decreases cs.len(),
{
    if cs.len() == 0 {
        Seq::empty()
    } else {
        let prev = live_blockers(cs.drop_last());
        match cs.last() {
            Some(c) => prev.push(PathBlocker { id: (cs.len() - 1) as usize, pos: c.pos }),
            None => prev,
        }
    }
}

/// The blockers that the live combatants make, in index order.
pub fn blockers_of(combatants: &Vec<Option<Combatant>>) -> (r: Vec<PathBlocker>)
    ensures
        r@ == live_blockers(combatants@),
{
    let mut r: Vec<PathBlocker> = Vec::new();
    let mut i: usize = 0;
    while i < combatants.len()
        invariant
            i <= combatants@.len(),
            r@ == live_blockers(combatants@.take(i as int)),
        decreases combatants@.len() - i,
    {
        assert(combatants@.take(i as int + 1).drop_last() =~= combatants@.take(i as int));
        match combatants[i] {
            Some(c) => r.push(PathBlocker { id: i, pos: c.pos }),
            None => {},
        }
        i = i + 1;
    }
    assert(combatants@.take(combatants@.len() as int) =~= combatants@);
    r
}

proof fn lemma_occupant_is_live(cs: Seq<Option<Combatant>>, x: int, y: int)
    requires
        occupant(live_blockers(cs), x, y) is Some,
    ensures
        exists|j: int| 0 <= j < cs.len() && #[trigger] cs[j] is Some && cs[j]->0.pos.x == x && cs[j]->0.pos.y == y,
    decreases cs.len(),
{
    let prev = cs.drop_last();
    match cs.last() {
        Some(c) => {
            if !(c.pos.x == x && c.pos.y == y) {
                assert(live_blockers(cs).drop_last() == live_blockers(prev));
                lemma_occupant_is_live(prev, x, y);
                let j = choose|j: int| 0 <= j < prev.len() && #[trigger] prev[j] is Some && prev[j]->0.pos.x == x && prev[j]->0.pos.y == y;
                assert(cs[j] == prev[j]);
            } else {
                assert(cs[cs.len() - 1] is Some);
            }
        },
        None => {
            lemma_occupant_is_live(prev, x, y);
            let j = choose|j: int| 0 <= j < prev.len() && #[trigger] prev[j] is Some && prev[j]->0.pos.x == x && prev[j]->0.pos.y == y;
            assert(cs[j] == prev[j]);
        },
    }
}

/// After the death pass removes a combatant, its cell is open in the next
/// rebuild of the index from the survivors, unless the cell is a wall or a
/// survivor stands on it.
pub proof fn lemma_dead_cell_unblocked(
    before: Seq<Option<Combatant>>,
    after: Seq<Option<Combatant>>,
    map: Grid<MapTile>,
    obstacles: Grid<bool>,
    actors: Grid<Option<usize>>,
    i: int,
)
    requires
        after.len() == before.len(),
        forall|j: int| 0 <= j < before.len() ==> #[trigger] after[j] == if is_dead(before[j]) {
            None
        } else {
            before[j]
        },
        0 <= i < before.len(),
        is_dead(before[i]),
        map.has(before[i]->0.pos.x as int, before[i]->0.pos.y as int),
        map.at(before[i]->0.pos.x as int, before[i]->0.pos.y as int) == MapTile::Floor,
        forall|j: int| 0 <= j < after.len() && #[trigger] after[j] is Some ==> after[j]->0.pos != before[i]->0.pos,
        index_matches(map, live_blockers(after), obstacles, actors),
    ensures
        after[i] is None,
        !obstacles.at(before[i]->0.pos.x as int, before[i]->0.pos.y as int),
        actors.at(before[i]->0.pos.x as int, before[i]->0.pos.y as int) is None,
{
    let p = before[i]->0.pos;
    if occupant(live_blockers(after), p.x as int, p.y as int) is Some {
        lemma_occupant_is_live(after, p.x as int, p.y as int);
        let j = choose|j: int| 0 <= j < after.len() && #[trigger] after[j] is Some && after[j]->0.pos.x == p.x && after[j]->0.pos.y == p.y;
        assert(after[j]->0.pos == p);
    }
    assert(obstacles.at(p.x as int, p.y as int) == (map.at(p.x as int, p.y as int) == MapTile::Wall
        || occupant(live_blockers(after), p.x as int, p.y as int) is Some));
}

} // verus!
