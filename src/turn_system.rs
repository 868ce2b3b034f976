use vstd::prelude::*;

verus! {

/// When an actor's energy reaches or exceeds 100, it will be given a turn.
#[derive(Clone, Copy, Debug, PartialEq, Eq, Structural)]
pub struct Energy(pub i32);

/// Determines how frequently an actor gets to take their turn,
/// relative to other actors.
#[derive(Clone, Copy, Debug, PartialEq, Eq, Structural)]
pub struct Speed(pub i32);

/// The scheduling record of one actor; `taking_a_turn` marks the actor whose
/// turn it is.
#[derive(Clone, Copy, Debug, PartialEq, Eq, Structural)]
pub struct TurnState {
    pub energy: Energy,
    pub speed: Speed,
    pub taking_a_turn: bool,
}

/// The result of one scheduling pass: the actor granted a turn, if any, and
/// how many rounds of accumulation it took.
#[derive(Clone, Copy, Debug, PartialEq, Eq, Structural)]
pub struct TurnGrant {
    pub granted: Option<usize>,
    pub rounds: u32,
}

/// Energy never negative; speed non-negative and small enough that adding it
/// to an energy below 100 stays an `i32`.
pub open spec fn actor_ok(a: TurnState) -> bool {
    &&& 0 <= a.energy.0
    &&& 0 <= a.speed.0 <= i32::MAX - 100
    &&& a.energy.0 + a.speed.0 <= i32::MAX
}

pub open spec fn energy_after(a: TurnState, r: int) -> int {
    a.energy.0 + r * a.speed.0
}

/// One pass of accumulation from `old` to `new`: every actor gains its speed
/// each round; in round `r` actor `g` is the first in order to reach 100, is
/// granted the turn, and the accumulation stops there, so actors after it
/// gained only `r - 1` times.
pub open spec fn pass_outcome(old: Seq<TurnState>, new: Seq<TurnState>, g: int, r: int) -> bool {
    &&& 0 <= g < old.len()
    &&& 1 <= r
    &&& new.len() == old.len()
    &&& energy_after(old[g], r) >= 100
    &&& forall|i: int| 0 <= i < g ==> energy_after(#[trigger] old[i], r) < 100
    &&& r > 1 ==> forall|i: int| 0 <= i < old.len() ==> energy_after(#[trigger] old[i], r - 1) < 100
    &&& forall|i: int|
        0 <= i < old.len() ==> {
            &&& (#[trigger] new[i]).speed == old[i].speed
            &&& new[i].energy.0 == energy_after(old[i], if i <= g { r } else { r - 1 })
            &&& new[i].taking_a_turn == (i == g)
        }
}

/// Grants one turn when no actor is acting. Every actor gains its speed in
/// energy, in order, round after round; the first to reach 100 is granted and
/// the pass stops at once. When an actor is already acting, or no actor can
/// ever reach 100, nothing changes.
pub fn turn_begin_system(actors: &mut Vec<TurnState>) -> (r: TurnGrant)
    requires
        forall|i: int| 0 <= i < old(actors)@.len() ==> actor_ok(#[trigger] old(actors)@[i]),
    ensures
        (exists|i: int| 0 <= i < old(actors)@.len() && (#[trigger] old(actors)@[i]).taking_a_turn)
            ==> final(actors)@ == old(actors)@ && r.granted is None,
        (forall|i: int| 0 <= i < old(actors)@.len() ==> !(#[trigger] old(actors)@[i]).can_cross_turn())
            ==> final(actors)@ == old(actors)@ && r.granted is None,
        (forall|i: int| 0 <= i < old(actors)@.len() ==> !(#[trigger] old(actors)@[i]).taking_a_turn)
            && (exists|i: int| 0 <= i < old(actors)@.len() && (#[trigger] old(actors)@[i]).can_cross_turn())
            ==> r.granted is Some && pass_outcome(
            old(actors)@,
            final(actors)@,
            r.granted->0 as int,
            r.rounds as int,
        ),
{
    let n = actors.len();
    let mut k: usize = 0;
    while k < n
        invariant
            k <= n,
            n == actors@.len(),
            actors@ == old(actors)@,
            forall|j: int| 0 <= j < k ==> !(#[trigger] actors@[j]).taking_a_turn,
        decreases n - k,
    {
        if actors[k].taking_a_turn {
            return TurnGrant { granted: None, rounds: 0 };
        }
        k = k + 1;
    }
    // the first actor that can ever reach the threshold, if any
    let mut c: usize = n;
    let mut j: usize = 0;
    while j < n
        invariant
            j <= n,
            c <= n,
            n == actors@.len(),
            actors@ == old(actors)@,
            c == n ==> forall|q: int| 0 <= q < j ==> !(#[trigger] actors@[q]).can_cross_turn(),
            c < n ==> actors@[c as int].can_cross_turn(),
        decreases n - j,
    {
        if c == n && (actors[j].speed.0 > 0 || actors[j].energy.0 >= 100) {
            c = j;
        }
        j = j + 1;
    }
    if c == n {
        return TurnGrant { granted: None, rounds: 0 };
    }
    let ghost orig = actors@;
    let mut rounds: u32 = 0;
    while rounds < 101
        invariant
            n == actors@.len(),
            orig.len() == n,
            orig == old(actors)@,
            c < n,
            orig[c as int].can_cross_turn(),
            rounds <= 101,
            forall|j: int| 0 <= j < n ==> actor_ok(#[trigger] orig[j]),
            forall|j: int| 0 <= j < n ==> !(#[trigger] orig[j]).taking_a_turn,
            forall|j: int|
                0 <= j < n ==> {
                    &&& (#[trigger] actors@[j]).speed == orig[j].speed
                    &&& !actors@[j].taking_a_turn
                    &&& actors@[j].energy.0 == energy_after(orig[j], rounds as int)
                },
            rounds >= 1 ==> forall|j: int| 0 <= j < n ==> energy_after(#[trigger] orig[j], rounds as int) < 100,
        decreases 101 - rounds,
    {
        let mut i: usize = 0;
        while i < n
            invariant
                n == actors@.len(),
                orig.len() == n,
                orig == old(actors)@,
                i <= n,
                rounds < 101,
                forall|j: int| 0 <= j < n ==> actor_ok(#[trigger] orig[j]),
                forall|j: int| 0 <= j < n ==> !(#[trigger] orig[j]).taking_a_turn,
                rounds >= 1 ==> forall|j: int| 0 <= j < n ==> energy_after(#[trigger] orig[j], rounds as int) < 100,
                forall|j: int|
                    0 <= j < n ==> {
                        &&& (#[trigger] actors@[j]).speed == orig[j].speed
                        &&& !actors@[j].taking_a_turn
                        &&& actors@[j].energy.0 == energy_after(orig[j], if j < i { rounds + 1 } else { rounds as int })
                    },
                forall|j: int| 0 <= j < i ==> energy_after(#[trigger] orig[j], rounds + 1) < 100,
            decreases n - i,
        {
            let a = actors[i];
            proof {
                let s = orig[i as int].speed.0 as int;
                let r = rounds as int;
                assert((r + 1) * s == r * s + s) by (nonlinear_arith);
                if rounds == 0 {
                    assert(0 * s == 0) by (nonlinear_arith);
                }
            }
            let e = a.energy.0 + a.speed.0;
            if e >= 100 {
                actors.set(i, TurnState { energy: Energy(e), speed: a.speed, taking_a_turn: true });
                proof {
                    let r = rounds as int;
                    if r >= 1 {
                        assert forall|j: int| 0 <= j < n implies energy_after(#[trigger] orig[j], (r + 1) - 1) < 100 by {}
                    }
                }
                return TurnGrant { granted: Some(i), rounds: rounds + 1 };
            }
            actors.set(i, TurnState { energy: Energy(e), speed: a.speed, taking_a_turn: false });
            i = i + 1;
        }
        rounds = rounds + 1;
    }
    proof {
        let s = orig[c as int].speed.0 as int;
        let e0 = orig[c as int].energy.0 as int;
        assert(e0 + 101 * s < 100);
        if s == 0 {
            assert(e0 >= 100);
        } else {
            assert(101 * s >= 101) by (nonlinear_arith) requires s >= 1;
        }
    }
    TurnGrant { granted: None, rounds }
}

impl TurnState {
    /// The actor reaches the threshold at some round.
    pub open spec fn can_cross_turn(self) -> bool {
        self.speed.0 > 0 || self.energy.0 >= 100
    }
}

/// Ends the turn of every acting actor whose energy has dropped below 100;
/// nothing else changes.
pub fn turn_end_system(actors: &mut Vec<TurnState>)
    ensures
        final(actors)@.len() == old(actors)@.len(),
        forall|i: int|
            0 <= i < old(actors)@.len() ==> {
                &&& (#[trigger] final(actors)@[i]).energy == old(actors)@[i].energy
                &&& final(actors)@[i].speed == old(actors)@[i].speed
                &&& final(actors)@[i].taking_a_turn == (old(actors)@[i].taking_a_turn
                    && old(actors)@[i].energy.0 >= 100)
            },
{
    let n = actors.len();
    let ghost orig = actors@;
    let mut i: usize = 0;
    while i < n
        invariant
            i <= n,
            n == actors@.len(),
            orig.len() == n,
            forall|j: int|
                0 <= j < n ==> {
                    &&& (#[trigger] actors@[j]).energy == orig[j].energy
                    &&& actors@[j].speed == orig[j].speed
                    &&& actors@[j].taking_a_turn == if j < i {
                        orig[j].taking_a_turn && orig[j].energy.0 >= 100
                    } else {
                        orig[j].taking_a_turn
                    }
                },
        decreases n - i,
    {
        let a = actors[i];
        if a.taking_a_turn && a.energy.0 < 100 {
            actors.set(i, TurnState { energy: a.energy, speed: a.speed, taking_a_turn: false });
        }
        i = i + 1;
    }
}

/// With no contention, an actor of speed 100 whose energy was reset is granted
/// a turn after a single round of every pass, while one of speed 50 or less
/// needs at least two rounds.
pub proof fn lemma_turn_fairness(old: Seq<TurnState>, new: Seq<TurnState>, g: int, r: int)
    requires
        old.len() == 1,
        old[0].energy.0 == 0,
        pass_outcome(old, new, g, r),
    ensures
        g == 0,
        old[0].speed.0 >= 100 ==> r == 1,
        old[0].speed.0 <= 50 ==> r >= 2,
{
    let s = old[0].speed.0 as int;
    if s >= 100 && r > 1 {
        assert(energy_after(old[0], r - 1) < 100);
        assert((r - 1) * s >= s) by (nonlinear_arith) requires r - 1 >= 1, s >= 0;
    }
    if s <= 50 && r == 1 {
        assert(energy_after(old[0], 1) >= 100);
    }
}

} // verus!
