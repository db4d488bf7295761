//! Motion: where an agent wants to go, how fast it may turn there, and in
//! which cell it ends up.

use crate::entities::{Agent, Motion, MotionBehavior, Traits};
use crate::geometry::{lemma_sq_dist_bounds, Point, Position};
use crate::world::{alive_in, World};
use crate::growth::ROLL_SIDES;
use crate::random::roll;
use vstd::prelude::*;

verus! {

/// A full turn, in thousandths of a radian.
pub const FULL_TURN: i32 = 6_283;

/// The largest heading: just under half a turn. Headings run from
/// `-HALF_TURN` to `HALF_TURN`.
pub const HALF_TURN: i32 = 3_141;

/// Distance between the centres of two neighbouring cells, in the units of
/// a world position.
pub const CELL_PITCH: i32 = 6_000;

/// Chance per tick that a roaming agent changes its heading, in
/// thousandths. It is the same for every length of tick.
pub const WANDER_TURN_CHANCE: u32 = 100;

/// Share of a random direction that a roaming agent blends into its own
/// when it turns, in thousandths.
pub const WANDER_BLEND: u32 = 100;

/// What an agent does about its heading in this tick.
#[derive(Clone, Copy, Debug, PartialEq, Eq, Structural)]
pub enum Steering {
    /// Keep the heading.
    Keep,
    /// Turn towards the direction `(dx, dy)`, which is not zero.
    Toward { dx: i64, dy: i64 },
    /// Blend a little of the direction `angle` into the heading.
    Perturb { angle: i32 },
}

/// The angle `a` brought into the range of headings by whole turns.
pub open spec fn wrapped(a: int) -> int {
    (a + HALF_TURN) % (FULL_TURN as int) - HALF_TURN
}

/// `d` held within `-limit ..= limit`.
pub open spec fn clamped(d: int, limit: int) -> int {
    if d > limit {
        limit
    } else if d < -limit {
        -limit
    } else {
        d
    }
}

/// The most an agent may turn in `dt_ms` milliseconds at `turn_speed`
/// thousandths of a radian per second; never more than a full turn.
pub open spec fn turn_limit(turn_speed: int, dt_ms: int) -> int {
    if turn_speed * dt_ms / 1000 < FULL_TURN {
        turn_speed * dt_ms / 1000
    } else {
        FULL_TURN as int
    }
}

/// The heading after a turn from `current` towards `desired` by no more
/// than `limit`, the short way round.
pub open spec fn turned(current: int, desired: int, limit: int) -> int {
    wrapped(current + clamped(wrapped(desired - current), limit))
}

/// A turn never goes beyond its limit: the heading after it differs from
/// the heading before by the clamped difference, which is no more than
/// `limit` either way.
pub proof fn lemma_turn_within_limit(current: int, desired: int, limit: int)
    requires
        -HALF_TURN <= current <= HALF_TURN,
        0 <= limit <= HALF_TURN,
    ensures
        wrapped(turned(current, desired, limit) - current) == clamped(
            wrapped(desired - current),
            limit,
        ),
        -limit <= wrapped(turned(current, desired, limit) - current) <= limit,
{
}

/// A turn reaches the desired heading where the limit allows it.
pub proof fn lemma_turn_reaches(current: int, desired: int, limit: int)
    requires
        -limit <= wrapped(desired - current) <= limit,
    ensures
        turned(current, desired, limit) == wrapped(desired),
{
}

/// Brings an angle into the range of headings by whole turns.
pub fn wrap_angle(a: i64) -> (h: i32)
    ensures
        h == wrapped(a as int),
        -HALF_TURN <= h <= HALF_TURN,
{
    let full: i128 = FULL_TURN as i128;
    let shifted: i128 = a as i128 + HALF_TURN as i128;
    let r: i128 = shifted % full;
    let m: i128 = if r < 0 { r + full } else { r };
    (m - HALF_TURN as i128) as i32
}

/// The most an agent may turn in `dt_ms` milliseconds at `turn_speed`.
pub fn max_turn(turn_speed: u32, dt_ms: u64) -> (limit: i32)
    ensures
        limit == turn_limit(turn_speed as int, dt_ms as int),
        0 <= limit <= FULL_TURN,
{
    assert(0 <= (turn_speed as int) * (dt_ms as int) <= u128::MAX) by (nonlinear_arith)
        requires
            0 <= turn_speed <= u32::MAX,
            0 <= dt_ms <= u64::MAX,
    ;
    let t: u128 = (turn_speed as u128) * (dt_ms as u128) / 1000u128;
    if t < FULL_TURN as u128 {
        t as i32
    } else {
        FULL_TURN
    }
}

/// Turns from the heading `current` towards `desired`, the short way
/// round, by no more than `limit`.
pub fn turn_toward(current: i32, desired: i32, limit: i32) -> (h: i32)
    requires
        0 <= limit,
    ensures
        h == turned(current as int, desired as int, limit as int),
        -HALF_TURN <= h <= HALF_TURN,
{
    let diff: i32 = wrap_angle(desired as i64 - current as i64);
    let delta: i32 = if diff > limit {
        limit
    } else if diff < -limit {
        -limit
    } else {
        diff
    };
    wrap_angle(current as i64 + delta as i64)
}

/// The rolls on which a roaming agent may change its heading: whether it
/// turns, and towards which direction.
#[derive(Clone, Copy, Debug, PartialEq, Eq, Structural)]
pub struct WanderRolls {
    pub turn: u32,
    pub angle: u32,
}

/// What an agent at `me` does about its heading. A roaming agent blends in
/// the direction that `rolls.angle` names, taken by whole turns, if
/// `rolls.turn` is below the chance of a turn. A seeking agent turns towards
/// its target, a fleeing one away from it; either keeps its heading where
/// the target is gone or stands in the agent's own cell, where there is no
/// direction to turn to.
pub open spec fn steering_of(
    behavior: MotionBehavior,
    me: Position,
    target: Option<Position>,
    rolls: WanderRolls,
) -> Steering {
    match behavior {
        MotionBehavior::Wander => if rolls.turn < WANDER_TURN_CHANCE {
            Steering::Perturb { angle: (rolls.angle % (FULL_TURN as u32)) as i32 }
        } else {
            Steering::Keep
        },
        MotionBehavior::Seek { .. } => match target {
            Some(t) => if t == me {
                Steering::Keep
            } else {
                Steering::Toward { dx: (t.x - me.x) as i64, dy: (t.y - me.y) as i64 }
            },
            None => Steering::Keep,
        },
        MotionBehavior::Evade { .. } => match target {
            Some(t) => if t == me {
                Steering::Keep
            } else {
                Steering::Toward { dx: (me.x - t.x) as i64, dy: (me.y - t.y) as i64 }
            },
            None => Steering::Keep,
        },
    }
}

/// Decides what an agent at `me` does about its heading, given where its
/// target is, if it has one that lives, and what was rolled for roaming.
pub fn steer(
    behavior: MotionBehavior,
    me: Position,
    target: Option<Position>,
    rolls: WanderRolls,
) -> (s: Steering)
    ensures
        s == steering_of(behavior, me, target, rolls),
        (s matches Steering::Toward { dx, dy } ==> dx != 0 || dy != 0),
        (s matches Steering::Perturb { angle } ==> 0 <= angle < FULL_TURN),
{
    match behavior {
        MotionBehavior::Wander => {
            if rolls.turn < WANDER_TURN_CHANCE {
                Steering::Perturb { angle: (rolls.angle % (FULL_TURN as u32)) as i32 }
            } else {
                Steering::Keep
            }
        },
        MotionBehavior::Seek { target: _ } => {
            match target {
                Some(t) => {
                    if t.x == me.x && t.y == me.y {
                        Steering::Keep
                    } else {
                        Steering::Toward {
                            dx: t.x as i64 - me.x as i64,
                            dy: t.y as i64 - me.y as i64,
                        }
                    }
                },
                None => Steering::Keep,
            }
        },
        MotionBehavior::Evade { target: _ } => {
            match target {
                Some(t) => {
                    if t.x == me.x && t.y == me.y {
                        Steering::Keep
                    } else {
                        Steering::Toward {
                            dx: me.x as i64 - t.x as i64,
                            dy: me.y as i64 - t.y as i64,
                        }
                    }
                },
                None => Steering::Keep,
            }
        },
    }
}

/// The agent that a way of moving is about, if any.
pub open spec fn target_of(behavior: MotionBehavior) -> Option<u64> {
    match behavior {
        MotionBehavior::Seek { target } => Some(target),
        MotionBehavior::Evade { target } => Some(target),
        MotionBehavior::Wander => None,
    }
}

/// Where the target of `behavior` stands among `agents`, if it has one that
/// lives.
pub open spec fn target_position(agents: Seq<Option<Agent>>, behavior: MotionBehavior) -> Option<
    Position,
> {
    match target_of(behavior) {
        Some(t) => if alive_in(agents, t) {
            Some(agents[t as int]->0.position)
        } else {
            None
        },
        None => None,
    }
}

/// Whether the agent in slot `i` moves: it lives, has a way of moving and
/// has a motion.
pub open spec fn moves(agents: Seq<Option<Agent>>, i: int) -> bool {
    &&& 0 <= i < agents.len()
    &&& agents[i] matches Some(a)
    &&& a.behavior is Some
    &&& a.motion is Some
}

/// The rolls of the agent in slot `i`; an agent for which none were made
/// rolls as one that does not turn.
pub open spec fn rolls_for(rolls: Seq<WanderRolls>, i: int) -> WanderRolls {
    if 0 <= i < rolls.len() {
        rolls[i]
    } else {
        WanderRolls { turn: WANDER_TURN_CHANCE, angle: 0 }
    }
}

/// What the moving agent in slot `i` does about its heading on `rolls`.
pub open spec fn steering_at(agents: Seq<Option<Agent>>, i: int, rolls: WanderRolls) -> Steering {
    let a = agents[i]->0;
    let b = a.behavior->0;
    steering_of(b, a.position, target_position(agents, b), rolls)
}

/// The plan of a tick for the first `n` slots: for every agent that moves,
/// in the order of the ids, its id and what it does about its heading,
/// where the agent in slot `k` roams on `rolls[k]`.
pub open spec fn planned(agents: Seq<Option<Agent>>, rolls: Seq<WanderRolls>, n: int) -> Seq<
    (u64, Steering),
>
    decreases n,
{
    if n <= 0 {
        Seq::empty()
    } else if moves(agents, n - 1) {
        planned(agents, rolls, n - 1).push(
            ((n - 1) as u64, steering_at(agents, n - 1, rolls_for(rolls, n - 1))),
        )
    } else {
        planned(agents, rolls, n - 1)
    }
}

/// Whether `plan` is the plan of a tick on some rolls such as can come up:
/// one pair for each slot, the first a roll for a chance in thousandths,
/// the second an angle of less than a full turn.
pub open spec fn plans(agents: Seq<Option<Agent>>, plan: Seq<(u64, Steering)>) -> bool {
    exists|rolls: Seq<WanderRolls>|
        {
            &&& rolls.len() == agents.len()
            &&& forall|k: int|
                0 <= k < rolls.len() ==> (#[trigger] rolls[k]).turn < ROLL_SIDES && rolls[k].angle
                    < FULL_TURN
            &&& plan == #[trigger] planned(agents, rolls, agents.len() as int)
        }
}

/// The plan for the first `n` slots goes by their own rolls alone.
pub proof fn lemma_planned_by_own_rolls(
    agents: Seq<Option<Agent>>,
    rolls: Seq<WanderRolls>,
    others: Seq<WanderRolls>,
    n: int,
)
    requires
        forall|k: int| 0 <= k < n ==> rolls_for(rolls, k) == rolls_for(others, k),
    ensures
        planned(agents, rolls, n) == planned(agents, others, n),
    decreases n,
{
    if n > 0 {
        lemma_planned_by_own_rolls(agents, rolls, others, n - 1);
    }
}

/// A plan names the agents that move, each once and in the order of the
/// ids, and no other.
pub proof fn lemma_planned_movers(agents: Seq<Option<Agent>>, rolls: Seq<WanderRolls>, n: int)
    requires
        0 <= n <= agents.len() <= u64::MAX,
    ensures
        forall|k: int|
            0 <= k < planned(agents, rolls, n).len() ==> (#[trigger] planned(agents, rolls, n)[k]).0
                < n && moves(agents, planned(agents, rolls, n)[k].0 as int),
        forall|k: int, l: int|
            0 <= k < l < planned(agents, rolls, n).len() ==> planned(agents, rolls, n)[k].0
                < planned(agents, rolls, n)[l].0,
        forall|i: int|
            0 <= i < n && moves(agents, i) ==> exists|k: int|
                0 <= k < planned(agents, rolls, n).len() && (#[trigger] planned(
                    agents,
                    rolls,
                    n,
                )[k]).0 == i,
    decreases n,
{
    if n > 0 {
        lemma_planned_movers(agents, rolls, n - 1);
        let before = planned(agents, rolls, n - 1);
        let now = planned(agents, rolls, n);
        assert forall|i: int| 0 <= i < n && moves(agents, i) implies exists|k: int|
            0 <= k < now.len() && (#[trigger] now[k]).0 == i by {
            if i < n - 1 {
                let k = choose|k: int| 0 <= k < before.len() && (#[trigger] before[k]).0 == i;
                assert(now[k].0 == i);
            } else {
                assert(now[now.len() - 1].0 == i);
            }
        }
    }
}

/// Where the target of `behavior` stands, if it has one that lives.
fn locate(world: &World, behavior: MotionBehavior) -> (target: Option<Position>)
    ensures
        target == target_position(world@, behavior),
{
    match behavior {
        MotionBehavior::Seek { target } => match world.get(target) {
            Some(t) => Some(t.position),
            None => None,
        },
        MotionBehavior::Evade { target } => match world.get(target) {
            Some(t) => Some(t.position),
            None => None,
        },
        MotionBehavior::Wander => None,
    }
}

/// The plan of a tick on given rolls: for every agent that moves, in the
/// order of the ids, what it does about its heading. The agent under the
/// id `k` roams on `rolls[k]`; one for which there are no rolls does not
/// turn. Seeking and fleeing agents go by where their target is now.
pub fn plan_moves(world: &World, rolls: &Vec<WanderRolls>) -> (plan: Vec<(u64, Steering)>)
    requires
        world.wf(),
    ensures
        plan@ == planned(world@, rolls@, world@.len() as int),
{
    let mut plan: Vec<(u64, Steering)> = Vec::new();
    let n: usize = world.len();
    let mut i: usize = 0;
    while i < n
        invariant
            i <= n,
            n == world@.len(),
            n <= u64::MAX,
            plan@ == planned(world@, rolls@, i as int),
        decreases n - i,
    {
        match world.get(i as u64) {
            Some(agent) => {
                match (agent.behavior, agent.motion) {
                    (Some(behavior), Some(_)) => {
                        let target = locate(world, behavior);
                        let mine: WanderRolls = if i < rolls.len() {
                            rolls[i]
                        } else {
                            WanderRolls { turn: WANDER_TURN_CHANCE, angle: 0 }
                        };
                        plan.push((i as u64, steer(behavior, agent.position, target, mine)));
                    },
                    _ => {},
                }
            },
            None => {},
        }
        i = i + 1;
    }
    plan
}

/// Decides for every moving agent what it does about its heading in this
/// tick, in the order of the ids: the plan of the tick on rolls from the
/// thread's random generator. A roaming agent changes its heading with a
/// fixed chance per tick, towards a direction drawn at random.
pub fn movement_system(world: &World) -> (plan: Vec<(u64, Steering)>)
    requires
        world.wf(),
    ensures
        plans(world@, plan@),
{
    let mut plan: Vec<(u64, Steering)> = Vec::new();
    let n: usize = world.len();
    let ghost mut rolls: Seq<WanderRolls> = Seq::empty();
    let mut i: usize = 0;
    while i < n
        invariant
            i <= n,
            n == world@.len(),
            n <= u64::MAX,
            rolls.len() == i,
            forall|k: int|
                0 <= k < rolls.len() ==> (#[trigger] rolls[k]).turn < ROLL_SIDES && rolls[k].angle
                    < FULL_TURN,
            plan@ == planned(world@, rolls, i as int),
        decreases n - i,
    {
        let ghost drawn = rolls;
        let ghost came_up = WanderRolls { turn: 0, angle: 0 };
        match world.get(i as u64) {
            Some(agent) => {
                match (agent.behavior, agent.motion) {
                    (Some(behavior), Some(_)) => {
                        let target = locate(world, behavior);
                        let mine: WanderRolls = match behavior {
                            MotionBehavior::Wander => WanderRolls {
                                turn: roll(ROLL_SIDES),
                                angle: roll(FULL_TURN as u32),
                            },
                            _ => WanderRolls { turn: 0, angle: 0 },
                        };
                        proof {
                            came_up = mine;
                        }
                        plan.push((i as u64, steer(behavior, agent.position, target, mine)));
                    },
                    _ => {},
                }
            },
            None => {},
        }
        proof {
            rolls = drawn.push(came_up);
            lemma_planned_by_own_rolls(world@, drawn, rolls, i as int);
        }
        i = i + 1;
    }
    plan
}

/// The widest turn that blending a random direction into a heading can
/// make, either way, in thousandths of a radian.
pub const WANDER_ARC: i32 = 101;

/// The heading that a steering leads to from `current`, where `bearing` is
/// the heading of the direction to turn to. An agent that keeps its heading
/// keeps it as it is; one that turns towards a target turns by no more than
/// `limit`; one that roams turns by no more than the arc of a blend.
pub open spec fn steered_heading(current: int, steering: Steering, bearing: int, limit: int) -> int {
    match steering {
        Steering::Keep => current,
        Steering::Toward { .. } => turned(current, bearing, limit),
        Steering::Perturb { .. } => turned(current, bearing, WANDER_ARC as int),
    }
}

/// Carries out a steering: the heading that it leads to from `current`,
/// given the heading `bearing` of the direction to turn to.
pub fn steered(current: i32, steering: Steering, bearing: i32, limit: i32) -> (h: i32)
    requires
        0 <= limit,
    ensures
        h == steered_heading(current as int, steering, bearing as int, limit as int),
        steering is Keep ==> h == current,
        steering is Toward ==> h == turned(current as int, bearing as int, limit as int),
{
    match steering {
        Steering::Keep => current,
        Steering::Toward { dx: _, dy: _ } => turn_toward(current, bearing, limit),
        Steering::Perturb { angle: _ } => turn_toward(current, bearing, WANDER_ARC),
    }
}

/// `a` divided by the cell pitch and rounded to the nearest whole number,
/// a half away from zero.
pub open spec fn rounded(a: int) -> int {
    if a >= 0 {
        (a + CELL_PITCH / 2) / (CELL_PITCH as int)
    } else {
        -((-a + CELL_PITCH / 2) / (CELL_PITCH as int))
    }
}

/// The cell whose centre is nearest to `p`.
pub open spec fn cell_at(p: Point) -> Position {
    Position { x: rounded(p.x as int) as i32, y: rounded(p.y as int) as i32 }
}

fn round_to_pitch(a: i32) -> (q: i32)
    ensures
        q == rounded(a as int),
        -(CELL_PITCH / 2) <= a - q * CELL_PITCH <= CELL_PITCH / 2,
{
    let wide: i64 = a as i64;
    let half: i64 = (CELL_PITCH / 2) as i64;
    let pitch: i64 = CELL_PITCH as i64;
    if wide >= 0 {
        ((wide + half) / pitch) as i32
    } else {
        (-((-wide + half) / pitch)) as i32
    }
}

/// The cell in which an agent at the world position `p` stands: the
/// position divided by the cell pitch and rounded. The centre of that cell
/// is no farther from `p` than half a pitch along either axis.
pub fn quantize(p: Point) -> (cell: Position)
    ensures
        cell == cell_at(p),
        -(CELL_PITCH / 2) <= p.x - cell.x * CELL_PITCH <= CELL_PITCH / 2,
        -(CELL_PITCH / 2) <= p.y - cell.y * CELL_PITCH <= CELL_PITCH / 2,
{
    Position { x: round_to_pitch(p.x), y: round_to_pitch(p.y) }
}

/// How far an agent gets in `dt_ms` milliseconds at `speed` position units
/// per second.
pub open spec fn distance_covered(speed: int, dt_ms: int) -> int {
    speed * dt_ms / 1000
}

/// How far an agent gets in `dt_ms` milliseconds at `speed`.
pub fn step_length(speed: u32, dt_ms: u64) -> (d: u128)
    ensures
        d == distance_covered(speed as int, dt_ms as int),
{
    assert(0 <= (speed as int) * (dt_ms as int) <= u128::MAX) by (nonlinear_arith)
        requires
            0 <= speed <= u32::MAX,
            0 <= dt_ms <= u64::MAX,
    ;
    (speed as u128) * (dt_ms as u128) / 1000u128
}

/// How far an agent gets along one axis in `dt_ms` milliseconds at `speed`,
/// where `part` thousandths of its way go along that axis; towards zero
/// where it does not come out even.
pub open spec fn axis_step(part: int, speed: int, dt_ms: int) -> int {
    if part >= 0 {
        part * distance_covered(speed, dt_ms) / 1000
    } else {
        -((-part) * distance_covered(speed, dt_ms) / 1000)
    }
}

/// `a` held within the range of a coordinate.
pub open spec fn on_axis(a: int) -> int {
    if a > i32::MAX {
        i32::MAX as int
    } else if a < i32::MIN {
        i32::MIN as int
    } else {
        a
    }
}

/// The world position reached from `at` in `dt_ms` milliseconds at `speed`
/// in the direction `(cos, sin)`, given in thousandths. An agent that would
/// leave the world stops at its edge.
pub open spec fn advanced(at: Point, cos: i32, sin: i32, speed: u32, dt_ms: u64) -> Point {
    Point {
        x: on_axis(at.x + axis_step(cos as int, speed as int, dt_ms as int)) as i32,
        y: on_axis(at.y + axis_step(sin as int, speed as int, dt_ms as int)) as i32,
    }
}

fn step_on_axis(a: i32, part: i32, length: u128) -> (b: i32)
    requires
        length <= 0x1_0000_0000_0000_0000_0000_0000,
    ensures
        part >= 0 ==> b == on_axis(a + part * length / 1000),
        part < 0 ==> b == on_axis(a - (-part) * length / 1000),
{
    let size: u128 = if part < 0 { (-(part as i64)) as u128 } else { part as u128 };
    assert(size * length <= 0x8000_0000 * 0x1_0000_0000_0000_0000_0000_0000) by (nonlinear_arith)
        requires
            size <= 0x8000_0000,
            length <= 0x1_0000_0000_0000_0000_0000_0000,
    ;
    let far: u128 = size * length / 1000u128;
    if part >= 0 {
        if far > (i32::MAX as i64 - a as i64) as u128 {
            i32::MAX
        } else {
            (a as i64 + far as i64) as i32
        }
    } else {
        if far > (a as i64 - i32::MIN as i64) as u128 {
            i32::MIN
        } else {
            (a as i64 - far as i64) as i32
        }
    }
}

/// Moves on from `at` for `dt_ms` milliseconds at `speed` in the direction
/// `(cos, sin)`, the cosine and sine of the heading in thousandths.
pub fn advance(at: Point, cos: i32, sin: i32, speed: u32, dt_ms: u64) -> (reached: Point)
    ensures
        reached == advanced(at, cos, sin, speed, dt_ms),
{
    let length: u128 = step_length(speed, dt_ms);
    assert(length <= 0x1_0000_0000_0000_0000_0000_0000) by (nonlinear_arith)
        requires
            length == (speed as int) * (dt_ms as int) / 1000,
            0 <= speed <= 0xffff_ffff,
            0 <= dt_ms <= 0xffff_ffff_ffff_ffff,
    ;
    Point { x: step_on_axis(at.x, cos, length), y: step_on_axis(at.y, sin, length) }
}

/// The world position of the middle of `cell`, held within the range of a
/// coordinate.
pub open spec fn centre_of(cell: Position) -> Point {
    Point {
        x: on_axis(cell.x * CELL_PITCH) as i32,
        y: on_axis(cell.y * CELL_PITCH) as i32,
    }
}

fn pitch_times(c: i32) -> (a: i32)
    ensures
        a == on_axis(c * CELL_PITCH),
{
    let wide: i64 = c as i64 * CELL_PITCH as i64;
    if wide > i32::MAX as i64 {
        i32::MAX
    } else if wide < i32::MIN as i64 {
        i32::MIN
    } else {
        wide as i32
    }
}

/// The world position of the middle of `cell`.
pub fn cell_centre(cell: Position) -> (p: Point)
    ensures
        p == centre_of(cell),
{
    Point { x: pitch_times(cell.x), y: pitch_times(cell.y) }
}

/// The middle of a cell lies in that cell, for every cell whose middle is
/// a world position.
pub proof fn lemma_centre_in_cell(cell: Position)
    requires
        i32::MIN <= cell.x * CELL_PITCH <= i32::MAX,
        i32::MIN <= cell.y * CELL_PITCH <= i32::MAX,
    ensures
        cell_at(centre_of(cell)) == cell,
{
}

/// The most that an agent may turn in `dt_ms` milliseconds: what its
/// turning rate allows, or a full turn if it has no traits.
pub open spec fn turn_limit_of(a: Agent, dt_ms: u64) -> int {
    match a.traits {
        Some(t) => turn_limit(t.turn_speed as int, dt_ms as int),
        None => FULL_TURN as int,
    }
}

/// The speed at which an agent with a motion moves: its top speed, or the
/// speed it has if it has no traits.
pub open spec fn top_speed(a: Agent) -> u32 {
    match a.traits {
        Some(t) => t.max_speed,
        None => a.motion->0.speed,
    }
}

/// A moving agent after it has turned: its heading is what the steering
/// leads to within its turning rate, and its speed is its top speed.
pub open spec fn turned_agent(a: Agent, steering: Steering, bearing: i32, dt_ms: u64) -> Agent {
    Agent {
        motion: Some(
            Motion {
                direction: steered_heading(
                    a.motion->0.direction as int,
                    steering,
                    bearing as int,
                    turn_limit_of(a, dt_ms),
                ) as i32,
                speed: top_speed(a),
            },
        ),
        ..a
    }
}

/// A moving agent after it has advanced for `dt_ms` milliseconds at its top
/// speed in the direction `(cos, sin)`: it is at the place reached and
/// stands in the cell of that place.
pub open spec fn stepped(a: Agent, cos: i32, sin: i32, dt_ms: u64) -> Agent {
    let reached = advanced(a.place, cos, sin, top_speed(a), dt_ms);
    Agent {
        place: reached,
        position: cell_at(reached),
        motion: Some(Motion { direction: a.motion->0.direction, speed: top_speed(a) }),
        ..a
    }
}

/// Turns the agent under `id` as `steering` asks, by no more than its
/// turning rate allows in `dt_ms` milliseconds, and sets it to its top
/// speed. `bearing` is the heading of the direction to turn to. Returns the
/// new heading; an agent that is dead or does not move is passed over.
pub fn turn_agent(
    world: &mut World,
    id: u64,
    steering: Steering,
    bearing: i32,
    dt_ms: u64,
) -> (heading: Option<i32>)
    requires
        old(world).wf(),
    ensures
        final(world).wf(),
        heading is Some <==> moves(old(world)@, id as int),
        heading matches Some(h) ==> final(world)@ == old(world)@.update(
            id as int,
            Some(turned_agent(old(world)@[id as int]->0, steering, bearing, dt_ms)),
        ) && final(world)@[id as int]->0.motion->0.direction == h,
        heading is None ==> final(world)@ == old(world)@,
        final(world).seen() == old(world).seen(),
{
    let (current, limit, speed): (i32, i32, u32) = match world.get(id) {
        Some(a) => match (a.behavior, a.motion) {
            (Some(_), Some(m)) => match a.traits {
                Some(t) => (m.direction, max_turn(t.turn_speed, dt_ms), t.max_speed),
                None => (m.direction, FULL_TURN, m.speed),
            },
            _ => {
                return None;
            },
        },
        None => {
            return None;
        },
    };
    let h: i32 = steered(current, steering, bearing, limit);
    let agent = world.agent_mut(id);
    agent.motion = Some(Motion { direction: h, speed });
    Some(h)
}

/// Advances the agent under `id` for `dt_ms` milliseconds at its top speed
/// in the direction `(cos, sin)`, the cosine and sine of its heading in
/// thousandths, and puts it in the cell of the place it reaches. Returns
/// that place; an agent that is dead or does not move stays where it is.
pub fn step_agent(world: &mut World, id: u64, cos: i32, sin: i32, dt_ms: u64) -> (reached: Option<Point>)
    requires
        old(world).wf(),
    ensures
        final(world).wf(),
        reached is Some <==> moves(old(world)@, id as int),
        reached matches Some(p) ==> p == advanced(
            old(world)@[id as int]->0.place,
            cos,
            sin,
            top_speed(old(world)@[id as int]->0),
            dt_ms,
        ) && final(world)@ == old(world)@.update(
            id as int,
            Some(stepped(old(world)@[id as int]->0, cos, sin, dt_ms)),
        ) && final(world)@[id as int]->0.position == cell_at(p),
        reached is None ==> final(world)@ == old(world)@,
        final(world).seen() == old(world).seen(),
{
    let (at, heading, speed): (Point, i32, u32) = match world.get(id) {
        Some(a) => match (a.behavior, a.motion) {
            (Some(_), Some(m)) => match a.traits {
                Some(t) => (a.place, m.direction, t.max_speed),
                None => (a.place, m.direction, m.speed),
            },
            _ => {
                return None;
            },
        },
        None => {
            return None;
        },
    };
    let p: Point = advance(at, cos, sin, speed, dt_ms);
    let cell: Position = quantize(p);
    let agent = world.agent_mut(id);
    agent.place = p;
    agent.position = cell;
    agent.motion = Some(Motion { direction: heading, speed });
    Some(p)
}

/// The direction that a roaming agent makes for when it blends the
/// direction `(cos_new, sin_new)` into its own, `(cos, sin)`, all in
/// thousandths: its own direction and the share `WANDER_BLEND` of the new
/// one, added up.
pub open spec fn blended(cos: i32, sin: i32, cos_new: i32, sin_new: i32) -> (i64, i64) {
    (
        (cos * 1000 + cos_new * WANDER_BLEND) as i64,
        (sin * 1000 + sin_new * WANDER_BLEND) as i64,
    )
}

/// Blends the direction `(cos_new, sin_new)` into `(cos, sin)`.
pub fn blend(cos: i32, sin: i32, cos_new: i32, sin_new: i32) -> (sum: (i64, i64))
    ensures
        sum == blended(cos, sin, cos_new, sin_new),
{
    let share: i64 = WANDER_BLEND as i64;
    assert(-0x8000_0000 * 100 <= cos_new * share <= 0x8000_0000 * 100 && -0x8000_0000 * 100
        <= sin_new * share <= 0x8000_0000 * 100) by (nonlinear_arith)
        requires
            share == 100,
            -0x8000_0000 <= cos_new < 0x8000_0000,
            -0x8000_0000 <= sin_new < 0x8000_0000,
    ;
    (cos as i64 * 1000 + cos_new as i64 * share, sin as i64 * 1000 + sin_new as i64 * share)
}

/// Whether `bearing` is a heading that the host's trigonometry gives for
/// the direction that `steering` asks an agent with the heading `current`
/// to turn to: the direction of the target, or the blend of a roaming
/// agent. `bearing_of` takes a direction to its heading, and `trig_of` a
/// heading to its cosine and sine in thousandths.
pub open spec fn bears<B: Fn(i64, i64) -> i32, T: Fn(i32) -> (i32, i32)>(
    bearing_of: &B,
    trig_of: &T,
    current: i32,
    steering: Steering,
    bearing: i32,
) -> bool {
    match steering {
        Steering::Keep => bearing == current,
        Steering::Toward { dx, dy } => call_ensures(*bearing_of, (dx, dy), bearing),
        Steering::Perturb { angle } => exists|own: (i32, i32), new: (i32, i32)|
            {
                &&& #[trigger] call_ensures(*trig_of, (current,), own)
                &&& #[trigger] call_ensures(*trig_of, (angle,), new)
                &&& call_ensures(
                    *bearing_of,
                    (blended(own.0, own.1, new.0, new.1).0, blended(own.0, own.1, new.0, new.1).1),
                    bearing,
                )
            },
    }
}

/// Whether `after` is the moving agent `a` after its move of a tick: it
/// has turned as `steering` asks, towards a bearing that the host's
/// trigonometry gives and within its turning rate, and has then advanced
/// at its top speed along its new heading, into the cell of the place it
/// reaches.
pub open spec fn moved<B: Fn(i64, i64) -> i32, T: Fn(i32) -> (i32, i32)>(
    bearing_of: &B,
    trig_of: &T,
    a: Agent,
    steering: Steering,
    dt_ms: u64,
    after: Agent,
) -> bool {
    exists|bearing: i32, along: (i32, i32)|
        {
            &&& bears(bearing_of, trig_of, a.motion->0.direction, steering, bearing)
            &&& call_ensures(
                *trig_of,
                (turned_agent(a, steering, bearing, dt_ms).motion->0.direction,),
                along,
            )
            &&& after == #[trigger] stepped(
                turned_agent(a, steering, bearing, dt_ms),
                along.0,
                along.1,
                dt_ms,
            )
        }
}

/// The move of one agent in a tick: it turns as `steering` asks, by no
/// more than its turning rate allows in `dt_ms` milliseconds, takes its top
/// speed, advances along its new heading and comes to stand in the cell of
/// the place it reaches, which is returned. The host lends its
/// trigonometry: `bearing_of` takes a direction to its heading, `trig_of` a
/// heading to its cosine and sine in thousandths. An agent that is dead or
/// does not move is passed over.
pub fn move_agent<B: Fn(i64, i64) -> i32, T: Fn(i32) -> (i32, i32)>(
    world: &mut World,
    id: u64,
    steering: Steering,
    bearing_of: &B,
    trig_of: &T,
    dt_ms: u64,
) -> (reached: Option<Point>)
    requires
        old(world).wf(),
        forall|dx: i64, dy: i64| call_requires(*bearing_of, (dx, dy)),
        forall|h: i32| call_requires(*trig_of, (h,)),
    ensures
        final(world).wf(),
        reached is Some <==> moves(old(world)@, id as int),
        reached matches Some(p) ==> final(world).alive(id) && final(world)@[id as int]->0.place == p
            && moved(
            bearing_of,
            trig_of,
            old(world)@[id as int]->0,
            steering,
            dt_ms,
            final(world)@[id as int]->0,
        ) && final(world)@ == old(world)@.update(id as int, final(world)@[id as int]),
        reached is None ==> final(world)@ == old(world)@,
        final(world).seen() == old(world).seen(),
{
    let current: i32 = match world.get(id) {
        Some(a) => match (a.behavior, a.motion) {
            (Some(_), Some(m)) => m.direction,
            _ => {
                return None;
            },
        },
        None => {
            return None;
        },
    };
    let bearing: i32 = match steering {
        Steering::Keep => current,
        Steering::Toward { dx, dy } => bearing_of(dx, dy),
        Steering::Perturb { angle } => {
            let own = trig_of(current);
            let new = trig_of(angle);
            let (x, y) = blend(own.0, own.1, new.0, new.1);
            bearing_of(x, y)
        },
    };
    let ghost before = world@[id as int]->0;
    let heading = turn_agent(world, id, steering, bearing, dt_ms);
    let along = trig_of(heading.unwrap());
    let reached = step_agent(world, id, along.0, along.1, dt_ms);
    proof {
        let turned = turned_agent(before, steering, bearing, dt_ms);
        assert(bears(bearing_of, trig_of, current, steering, bearing));
        assert(call_ensures(*trig_of, (turned.motion->0.direction,), along));
        assert(world@[id as int]->0 == stepped(turned, along.0, along.1, dt_ms));
    }
    reached
}

/// Whether `after` is the world `before` after the move of one entry of a
/// plan: its agent, if it lives and moves, has moved as `moved` has it on
/// the steering of the entry, and every other agent is as it was.
pub open spec fn move_of<B: Fn(i64, i64) -> i32, T: Fn(i32) -> (i32, i32)>(
    bearing_of: &B,
    trig_of: &T,
    before: Seq<Option<Agent>>,
    entry: (u64, Steering),
    dt_ms: u64,
    after: Seq<Option<Agent>>,
) -> bool {
    if moves(before, entry.0 as int) {
        &&& alive_in(after, entry.0)
        &&& moved(
            bearing_of,
            trig_of,
            before[entry.0 as int]->0,
            entry.1,
            dt_ms,
            after[entry.0 as int]->0,
        )
        &&& after == before.update(entry.0 as int, after[entry.0 as int])
    } else {
        after == before
    }
}

/// Whether `after` is the world `before` after the moves of the first `n`
/// entries of `plan`, one after the other.
pub open spec fn moves_of<B: Fn(i64, i64) -> i32, T: Fn(i32) -> (i32, i32)>(
    bearing_of: &B,
    trig_of: &T,
    before: Seq<Option<Agent>>,
    plan: Seq<(u64, Steering)>,
    n: int,
    dt_ms: u64,
    after: Seq<Option<Agent>>,
) -> bool
    decreases n,
{
    if n <= 0 {
        after == before
    } else {
        exists|mid: Seq<Option<Agent>>|
            {
                &&& moves_of(bearing_of, trig_of, before, plan, n - 1, dt_ms, mid)
                &&& #[trigger] move_of(bearing_of, trig_of, mid, plan[n - 1], dt_ms, after)
            }
    }
}

/// The motion of a tick: every agent of `plan`, in order, makes its move as
/// `move_agent` has it. The host lends its trigonometry: `bearing_of` takes
/// a direction to its heading, `trig_of` a heading to its cosine and sine
/// in thousandths. Returns the places reached, one for each entry of the
/// plan whose agent lives and moves.
pub fn move_agents<B: Fn(i64, i64) -> i32, T: Fn(i32) -> (i32, i32)>(
    world: &mut World,
    plan: &Vec<(u64, Steering)>,
    bearing_of: &B,
    trig_of: &T,
    dt_ms: u64,
) -> (reached: Vec<(u64, Point)>)
    requires
        old(world).wf(),
        forall|dx: i64, dy: i64| call_requires(*bearing_of, (dx, dy)),
        forall|h: i32| call_requires(*trig_of, (h,)),
    ensures
        final(world).wf(),
        moves_of(
            bearing_of,
            trig_of,
            old(world)@,
            plan@,
            plan@.len() as int,
            dt_ms,
            final(world)@,
        ),
        final(world)@.len() == old(world)@.len(),
        final(world).seen() == old(world).seen(),
        forall|k: int|
            0 <= k < reached@.len() ==> final(world).alive((#[trigger] reached@[k]).0),
{
    let mut reached: Vec<(u64, Point)> = Vec::new();
    let mut i: usize = 0;
    while i < plan.len()
        invariant
            i <= plan@.len(),
            world.wf(),
            forall|dx: i64, dy: i64| call_requires(*bearing_of, (dx, dy)),
            forall|h: i32| call_requires(*trig_of, (h,)),
            moves_of(bearing_of, trig_of, old(world)@, plan@, i as int, dt_ms, world@),
            world@.len() == old(world)@.len(),
            world.seen() == old(world).seen(),
            forall|j: int| 0 <= j < world@.len() ==> (#[trigger] world@[j] is Some <==> old(
                world,
            )@[j] is Some),
            forall|k: int| 0 <= k < reached@.len() ==> world.alive((#[trigger] reached@[k]).0),
        decreases plan@.len() - i,
    {
        let ghost mid = world@;
        let (id, steering) = plan[i];
        match move_agent(world, id, steering, bearing_of, trig_of, dt_ms) {
            Some(p) => {
                reached.push((id, p));
            },
            None => {},
        }
        proof {
            let n = i + 1;
            assert(move_of(bearing_of, trig_of, mid, plan@[n - 1], dt_ms, world@));
            assert(moves_of(bearing_of, trig_of, old(world)@, plan@, n - 1, dt_ms, mid));
            assert(moves_of(bearing_of, trig_of, old(world)@, plan@, n, dt_ms, world@));
        }
        i = i + 1;
    }
    reached
}

/// How far a prey animal sees a plant, in the units of a world position.
pub const PREY_VISION_RANGE: u32 = 100_000;

/// The most a prey animal that sees no plant turns at random in one tick,
/// either way, in thousandths of a radian.
pub const RANDOM_TURN: u32 = 500;

/// Whether plant `k` is, among the first `n` plants, the first of those
/// nearest to `at`, and within sight.
pub open spec fn nearest_in_sight(at: Point, plants: Seq<Point>, n: int, k: int) -> bool {
    &&& 0 <= k < n
    &&& at.spec_dist_sq(plants[k]) <= PREY_VISION_RANGE * PREY_VISION_RANGE
    &&& forall|j: int|
        0 <= j < n ==> {
            &&& at.spec_dist_sq(plants[k]) <= at.spec_dist_sq(#[trigger] plants[j])
            &&& j < k ==> at.spec_dist_sq(plants[k]) < at.spec_dist_sq(plants[j])
        }
}

/// The plant nearest to `at` among those within sight, as an index into
/// `plants`; of several equally near the first. Nothing where no plant is
/// within sight.
pub fn nearest_plant(at: Point, plants: &Vec<Point>) -> (found: Option<usize>)
    ensures
        match found {
            Some(k) => nearest_in_sight(at, plants@, plants@.len() as int, k as int),
            None => forall|j: int|
                0 <= j < plants@.len() ==> at.spec_dist_sq(#[trigger] plants@[j]) > PREY_VISION_RANGE
                    * PREY_VISION_RANGE,
        },
{
    let sight: u128 = (PREY_VISION_RANGE as u128) * (PREY_VISION_RANGE as u128);
    let mut best: Option<(usize, u128)> = None;
    let mut j: usize = 0;
    while j < plants.len()
        invariant
            j <= plants@.len(),
            sight == PREY_VISION_RANGE * PREY_VISION_RANGE,
            match best {
                Some(b) => b.0 < j && b.1 == at.spec_dist_sq(plants@[b.0 as int]) && forall|i: int|
                    0 <= i < j ==> {
                        &&& b.1 <= at.spec_dist_sq(#[trigger] plants@[i])
                        &&& i < b.0 ==> b.1 < at.spec_dist_sq(plants@[i])
                    },
                None => forall|i: int| 0 <= i < j ==> at.spec_dist_sq(#[trigger] plants@[i]) > sight,
            },
            best matches Some(b) ==> b.1 <= sight,
        decreases plants@.len() - j,
    {
        let d: u128 = at.dist_sq(&plants[j]);
        let closer: bool = match best {
            Some(b) => d < b.1,
            None => d <= sight,
        };
        if closer {
            best = Some((j, d));
        }
        j = j + 1;
    }
    match best {
        Some(b) => Some(b.0),
        None => None,
    }
}

/// The direction from `at` to `target`, or nothing where the two are the
/// same point, so that there is no direction to turn to.
pub fn direction_to(at: Point, target: Point) -> (s: Steering)
    ensures
        s == (if at == target {
            Steering::Keep
        } else {
            Steering::Toward { dx: (target.x - at.x) as i64, dy: (target.y - at.y) as i64 }
        }),
{
    if at.x == target.x && at.y == target.y {
        Steering::Keep
    } else {
        Steering::Toward { dx: target.x as i64 - at.x as i64, dy: target.y as i64 - at.y as i64 }
    }
}

/// What a prey animal at `at` does about its heading, given the plants:
/// it turns towards the nearest plant in sight, the first of several
/// equally near, and keeps its heading if that plant is where it is itself.
/// Nothing where no plant is in sight.
pub fn prey_steering(at: Point, plants: &Vec<Point>) -> (s: Option<Steering>)
    ensures
        prey_steers(at, plants@, s),
        s is None <==> forall|j: int|
            0 <= j < plants@.len() ==> at.spec_dist_sq(#[trigger] plants@[j]) > PREY_VISION_RANGE
                * PREY_VISION_RANGE,
{
    match nearest_plant(at, plants) {
        Some(k) => {
            let s = direction_to(at, plants[k]);
            assert(nearest_in_sight(at, plants@, plants@.len() as int, k as int));
            Some(s)
        },
        None => None,
    }
}

/// The heading of a prey animal after a tick. One that has a steering
/// follows it within `limit`. One that sees no plant turns at random: it
/// makes for the heading that lies `turn_roll`, taken below twice
/// `RANDOM_TURN`, less `RANDOM_TURN` from its own, within `limit`.
pub open spec fn prey_heading(
    current: int,
    steering: Option<Steering>,
    bearing: int,
    turn_roll: u32,
    limit: int,
) -> int {
    match steering {
        Some(s) => steered_heading(current, s, bearing, limit),
        None => turned(
            current,
            wrapped(current + (turn_roll as int) % (2 * RANDOM_TURN as int) - RANDOM_TURN),
            limit,
        ),
    }
}

/// The turn of a prey animal in a tick, on a given roll: it turns as
/// `prey_heading` has it, by no more than its turning rate allows in
/// `dt_ms` milliseconds, and takes its top speed. `steering` is what
/// `prey_steering` gave, `bearing` the heading of the direction to turn to.
pub fn prey_turn(
    motion: &mut Motion,
    traits: &Traits,
    steering: Option<Steering>,
    bearing: i32,
    turn_roll: u32,
    dt_ms: u64,
)
    ensures
        final(motion).direction == prey_heading(
            old(motion).direction as int,
            steering,
            bearing as int,
            turn_roll,
            turn_limit(traits.turn_speed as int, dt_ms as int),
        ),
        steering == Some(Steering::Keep) ==> final(motion).direction == old(motion).direction,
        final(motion).speed == traits.max_speed,
{
    let limit: i32 = max_turn(traits.turn_speed, dt_ms);
    motion.direction = match steering {
        Some(s) => steered(motion.direction, s, bearing, limit),
        None => {
            let turn: i64 = (turn_roll % (2 * RANDOM_TURN)) as i64 - RANDOM_TURN as i64;
            let desired: i32 = wrap_angle(motion.direction as i64 + turn);
            turn_toward(motion.direction, desired, limit)
        },
    };
    motion.speed = traits.max_speed;
}

/// Whether `s` is what a prey animal at `at` does about its heading, given
/// the plants: nothing where no plant is in sight; else it keeps its
/// heading if the nearest plant in sight is where it is itself, and turns
/// towards that plant otherwise.
pub open spec fn prey_steers(at: Point, plants: Seq<Point>, s: Option<Steering>) -> bool {
    match s {
        None => forall|j: int|
            0 <= j < plants.len() ==> at.spec_dist_sq(#[trigger] plants[j]) > PREY_VISION_RANGE
                * PREY_VISION_RANGE,
        Some(t) => exists|k: int|
            #[trigger] nearest_in_sight(at, plants, plants.len() as int, k) && t == (if at
                == plants[k] {
                Steering::Keep
            } else {
                Steering::Toward { dx: (plants[k].x - at.x) as i64, dy: (plants[k].y - at.y) as i64 }
            }),
    }
}

/// Whether a prey animal that was at `at` with the motion `motion` is at
/// `reached` with the motion `after` once a tick of `dt_ms` milliseconds
/// has passed: it has steered at the nearest plant in sight, or at random
/// if there is none, has turned within its turning rate, and has advanced
/// at its top speed along its new heading.
pub open spec fn prey_moved<B: Fn(i64, i64) -> i32, T: Fn(i32) -> (i32, i32)>(
    bearing_of: &B,
    trig_of: &T,
    at: Point,
    motion: Motion,
    traits: Traits,
    plants: Seq<Point>,
    dt_ms: u64,
    reached: Point,
    after: Motion,
) -> bool {
    exists|s: Option<Steering>, bearing: i32, turn_roll: u32, along: (i32, i32)|
        {
            &&& prey_steers(at, plants, s)
            &&& (s matches Some(Steering::Toward { dx, dy }) ==> call_ensures(
                *bearing_of,
                (dx, dy),
                bearing,
            ))
            &&& turn_roll < 2 * RANDOM_TURN
            &&& after.direction == #[trigger] prey_heading(
                motion.direction as int,
                s,
                bearing as int,
                turn_roll,
                turn_limit(traits.turn_speed as int, dt_ms as int),
            )
            &&& after.speed == traits.max_speed
            &&& call_ensures(*trig_of, (after.direction,), along)
            &&& reached == #[trigger] advanced(at, along.0, along.1, traits.max_speed, dt_ms)
        }
}

/// One tick of a prey animal's motion. It steers at the nearest plant in
/// sight, the first of several equally near; where that plant is at its
/// own place it keeps its heading, and where no plant is in sight it turns
/// at random, on a roll from the thread's random generator. It turns by no
/// more than its turning rate allows in `dt_ms` milliseconds, takes its top
/// speed and advances along its new heading. The host lends its
/// trigonometry: `bearing_of` takes a direction to its heading, `trig_of` a
/// heading to its cosine and sine in thousandths.
pub fn prey_movement<B: Fn(i64, i64) -> i32, T: Fn(i32) -> (i32, i32)>(
    at: &mut Point,
    motion: &mut Motion,
    traits: &Traits,
    plants: &Vec<Point>,
    bearing_of: &B,
    trig_of: &T,
    dt_ms: u64,
)
    requires
        forall|dx: i64, dy: i64| call_requires(*bearing_of, (dx, dy)),
        forall|h: i32| call_requires(*trig_of, (h,)),
    ensures
        prey_moved(
            bearing_of,
            trig_of,
            *old(at),
            *old(motion),
            *traits,
            plants@,
            dt_ms,
            *final(at),
            *final(motion),
        ),
        prey_steers(*old(at), plants@, Some(Steering::Keep)) ==> final(motion).direction == old(
            motion,
        ).direction,
        final(motion).speed == traits.max_speed,
{
    let steering = prey_steering(*at, plants);
    let bearing: i32 = match steering {
        Some(Steering::Toward { dx, dy }) => bearing_of(dx, dy),
        _ => motion.direction,
    };
    let turn_roll: u32 = match steering {
        Some(_) => 0,
        None => roll(2 * RANDOM_TURN),
    };
    prey_turn(motion, traits, steering, bearing, turn_roll, dt_ms);
    let along = trig_of(motion.direction);
    let reached = advance(*at, along.0, along.1, motion.speed, dt_ms);
    proof {
        assert(prey_steers(*old(at), plants@, steering));
        assert(call_ensures(*trig_of, (motion.direction,), along));
        assert(reached == advanced(*old(at), along.0, along.1, traits.max_speed, dt_ms));
        lemma_one_nearest(*old(at), plants@, steering);
    }
    *at = reached;
}

/// What a prey animal does about its heading is settled by where it and
/// the plants are: if it is to keep its heading, it is to do nothing else.
pub proof fn lemma_one_nearest(at: Point, plants: Seq<Point>, s: Option<Steering>)
    requires
        prey_steers(at, plants, s),
    ensures
        prey_steers(at, plants, Some(Steering::Keep)) ==> s == Some(Steering::Keep),
{
    if prey_steers(at, plants, Some(Steering::Keep)) {
        let k = choose|k: int|
            #[trigger] nearest_in_sight(at, plants, plants.len() as int, k) && Steering::Keep == (if at
                == plants[k] {
                Steering::Keep
            } else {
                Steering::Toward { dx: (plants[k].x - at.x) as i64, dy: (plants[k].y - at.y) as i64 }
            });
        assert(at.spec_dist_sq(plants[k]) == 0);
        match s {
            None => {
                assert(at.spec_dist_sq(plants[k]) > PREY_VISION_RANGE * PREY_VISION_RANGE);
            },
            Some(t) => {
                let l = choose|l: int|
                    #[trigger] nearest_in_sight(at, plants, plants.len() as int, l) && t == (if at
                        == plants[l] {
                        Steering::Keep
                    } else {
                        Steering::Toward {
                            dx: (plants[l].x - at.x) as i64,
                            dy: (plants[l].y - at.y) as i64,
                        }
                    });
                assert(at.spec_dist_sq(plants[l]) <= at.spec_dist_sq(plants[k]));
                lemma_sq_dist_bounds(at.x, at.y, plants[l].x, plants[l].y);
                assert(at.spec_dist_sq(plants[l]) == 0);
                assert(at == plants[l]) by (nonlinear_arith)
                    requires
                        (at.x - plants[l].x) * (at.x - plants[l].x) + (at.y - plants[l].y) * (at.y
                            - plants[l].y) == 0,
                {
                    let dx = at.x - plants[l].x;
                    let dy = at.y - plants[l].y;
                    assert(dx * dx >= 0 && dy * dy >= 0);
                    assert(dx != 0 ==> dx * dx > 0);
                    assert(dy != 0 ==> dy * dy > 0);
                }
            },
        }
    }
}

} // verus!
