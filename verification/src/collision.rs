//! Collisions: which agents share a cell, and what comes of it — a meal, a
//! breeding, or nothing.

use crate::config::Config;
use crate::energy::{after_gain, Energy};
use crate::entities::{Agent, EntityKind, Sighting};
use crate::geometry::Position;
use crate::spawn::{newborn, spawn_kind};
use crate::world::{alive_in, all_wf, World};
use vstd::prelude::*;

verus! {

/// Two agents were found in the same cell. The first id is the smaller.
#[derive(Clone, Copy, Debug, PartialEq, Eq, Structural)]
pub struct CollisionEvent(pub u64, pub u64);

/// Whether the agents in slots `i` and `j` collide: both live, `i` comes
/// first, and they stand in the same cell.
pub open spec fn collides(agents: Seq<Option<Agent>>, i: int, j: int) -> bool {
    &&& 0 <= i < j < agents.len()
    &&& agents[i] matches Some(a)
    &&& agents[j] matches Some(b)
    &&& a.position == b.position
}

/// The collisions of the agent in slot `i` with those behind it and before
/// slot `m`, in the order of their ids.
pub open spec fn collisions_with(agents: Seq<Option<Agent>>, i: int, m: int) -> Seq<CollisionEvent>
    decreases m - i,
{
    if m <= i + 1 {
        Seq::empty()
    } else {
        let rest = collisions_with(agents, i, m - 1);
        if collides(agents, i, m - 1) {
            rest.push(CollisionEvent(i as u64, (m - 1) as u64))
        } else {
            rest
        }
    }
}

/// The collisions in which the first agent stands in one of the first `n`
/// slots: every pair once, by the first id and then by the second.
pub open spec fn collisions_of(agents: Seq<Option<Agent>>, n: int) -> Seq<CollisionEvent>
    decreases n,
{
    if n <= 0 {
        Seq::empty()
    } else {
        collisions_of(agents, n - 1) + collisions_with(agents, n - 1, agents.len() as int)
    }
}

/// A pair is among the collisions of its first agent exactly if the two
/// collide, and no other event is.
pub proof fn lemma_collisions_with(agents: Seq<Option<Agent>>, i: int, m: int, e: CollisionEvent)
    requires
        0 <= i,
        m <= agents.len() <= u64::MAX,
    ensures
        collisions_with(agents, i, m).contains(e) <==> e.0 == i && e.1 < m && collides(
            agents,
            e.0 as int,
            e.1 as int,
        ),
    decreases m - i,
{
    if m > i + 1 {
        lemma_collisions_with(agents, i, m - 1, e);
        let rest = collisions_with(agents, i, m - 1);
        if collides(agents, i, m - 1) {
            let x = CollisionEvent(i as u64, (m - 1) as u64);
            let now = rest.push(x);
            if rest.contains(e) {
                let k = choose|k: int| 0 <= k < rest.len() && rest[k] == e;
                assert(now[k] == e);
            }
            if e == x {
                assert(now[rest.len() as int] == e);
            }
        }
    }
}

/// The collisions are exactly the pairs of living agents that share a cell,
/// each named with the smaller id first.
pub proof fn lemma_collisions_of(agents: Seq<Option<Agent>>, n: int, e: CollisionEvent)
    requires
        0 <= n <= agents.len() <= u64::MAX,
    ensures
        collisions_of(agents, n).contains(e) <==> e.0 < n && collides(
            agents,
            e.0 as int,
            e.1 as int,
        ),
    decreases n,
{
    if n > 0 {
        lemma_collisions_of(agents, n - 1, e);
        lemma_collisions_with(agents, n - 1, agents.len() as int, e);
        let front = collisions_of(agents, n - 1);
        let row = collisions_with(agents, n - 1, agents.len() as int);
        let now = front + row;
        if front.contains(e) {
            let k = choose|k: int| 0 <= k < front.len() && front[k] == e;
            assert(now[k] == e);
        }
        if row.contains(e) {
            let k = choose|k: int| 0 <= k < row.len() && row[k] == e;
            assert(now[front.len() + k] == e);
        }
    }
}

/// Finds the agents that share a cell: one event for each pair of living
/// agents in the same cell, the pairs in the order of their ids.
pub fn check_collisions(world: &World) -> (events: Vec<CollisionEvent>)
    requires
        world.wf(),
    ensures
        events@ == collisions_of(world@, world@.len() as int),
        forall|e: CollisionEvent|
            events@.contains(e) <==> collides(world@, e.0 as int, e.1 as int),
{
    let mut events: Vec<CollisionEvent> = Vec::new();
    let n: usize = world.len();
    let mut i: usize = 0;
    while i < n
        invariant
            i <= n,
            n == world@.len(),
            n <= u64::MAX,
            events@ == collisions_of(world@, i as int),
        decreases n - i,
    {
        let ghost front = events@;
        match world.get(i as u64) {
            Some(a) => {
                let mut j: usize = i + 1;
                while j < n
                    invariant
                        i < j <= n,
                        n == world@.len(),
                        n <= u64::MAX,
                        world@[i as int] == Some(*a),
                        events@ == front + collisions_with(world@, i as int, j as int),
                    decreases n - j,
                {
                    match world.get(j as u64) {
                        Some(b) => {
                            if a.position.x == b.position.x && a.position.y == b.position.y {
                                events.push(CollisionEvent(i as u64, j as u64));
                            }
                        },
                        None => {},
                    }
                    j = j + 1;
                }
            },
            None => {
                proof {
                    lemma_no_collisions(world@, i as int, n as int);
                }
            },
        }
        i = i + 1;
    }
    proof {
        assert forall|e: CollisionEvent|
            events@.contains(e) <==> collides(world@, e.0 as int, e.1 as int) by {
            lemma_collisions_of(world@, n as int, e);
        }
    }
    events
}

/// A dead agent collides with nobody.
pub proof fn lemma_no_collisions(agents: Seq<Option<Agent>>, i: int, m: int)
    requires
        0 <= i < agents.len(),
        agents[i] is None,
    ensures
        collisions_with(agents, i, m) == Seq::<CollisionEvent>::empty(),
    decreases m - i,
{
    if m > i + 1 {
        lemma_no_collisions(agents, i, m - 1);
    }
}

/// Two agents of one kind that may both breed have met.
#[derive(Clone, Copy, Debug, PartialEq, Eq, Structural)]
pub struct BreedEvent(pub u64, pub u64);

/// What comes of a collision.
#[derive(Clone, Copy, Debug, PartialEq, Eq, Structural)]
pub enum Outcome {
    /// The two go their ways.
    Nothing,
    /// The two breed.
    Breed,
    /// One eats the other.
    Meal { eater: u64, eaten: u64 },
}

/// Whether `x` may eat `y`: the kind of `y` is in the diet of `x`, and `y`
/// can be eaten.
pub open spec fn may_eat(x: Agent, y: Agent) -> bool {
    x.diet.includes(y.kind) && y.edible is Some
}

/// What comes of the meeting of `x`, under the id `a`, and `y`, under `b`.
/// Two of one kind that both carry the breeding mark breed, and neither eats
/// the other. Else the first eats the second if it may; else the second the
/// first if it may.
pub open spec fn outcome_of(a: u64, x: Agent, b: u64, y: Agent) -> Outcome {
    if x.kind == y.kind && x.can_breed && y.can_breed {
        Outcome::Breed
    } else if may_eat(x, y) {
        Outcome::Meal { eater: a, eaten: b }
    } else if may_eat(y, x) {
        Outcome::Meal { eater: b, eaten: a }
    } else {
        Outcome::Nothing
    }
}

/// What comes of a collision among `agents`: nothing if one of the two has
/// died since or the event names one agent twice.
pub open spec fn outcome(agents: Seq<Option<Agent>>, e: CollisionEvent) -> Outcome {
    if e.0 != e.1 && alive_in(agents, e.0) && alive_in(agents, e.1) {
        outcome_of(e.0, agents[e.0 as int]->0, e.1, agents[e.1 as int]->0)
    } else {
        Outcome::Nothing
    }
}

/// Decides what comes of the meeting of `x`, under the id `a`, and `y`,
/// under `b`.
pub fn resolve_collision(a: u64, x: &Agent, b: u64, y: &Agent) -> (out: Outcome)
    ensures
        out == outcome_of(a, *x, b, *y),
        out == Outcome::Breed <==> x.kind == y.kind && x.can_breed && y.can_breed,
{
    if x.kind == y.kind && x.can_breed && y.can_breed {
        Outcome::Breed
    } else if x.diet.eats(y.kind) && y.edible.is_some() {
        Outcome::Meal { eater: a, eaten: b }
    } else if y.diet.eats(x.kind) && x.edible.is_some() {
        Outcome::Meal { eater: b, eaten: a }
    } else {
        Outcome::Nothing
    }
}

/// Whether a meal can take place among `agents`: eater and eaten are two
/// living agents, the eater has energy, and the eaten can be eaten.
pub open spec fn can_feed(agents: Seq<Option<Agent>>, eater: u64, eaten: u64) -> bool {
    &&& eater != eaten
    &&& alive_in(agents, eater)
    &&& alive_in(agents, eaten)
    &&& agents[eater as int]->0.energy is Some
    &&& agents[eaten as int]->0.edible is Some
}

/// An agent after a meal worth `nutrition`: its energy is higher by that
/// much, up to its capacity.
pub open spec fn fed(x: Agent, nutrition: u64) -> Agent {
    let e = x.energy->0;
    Agent {
        energy: Some(
            Energy {
                current: after_gain(e.current as int, e.max as int, nutrition as int) as u64,
                ..e
            },
        ),
        ..x
    }
}

/// The agents after `eater` tries to eat `eaten`: where the meal can take
/// place, the eater is fed and the eaten is gone; else nothing changes.
pub open spec fn after_eat(
    agents: Seq<Option<Agent>>,
    eater: u64,
    eaten: u64,
) -> Seq<Option<Agent>> {
    if can_feed(agents, eater, eaten) {
        agents.update(
            eater as int,
            Some(fed(agents[eater as int]->0, agents[eaten as int]->0.edible->0.nutrition)),
        ).update(eaten as int, None)
    } else {
        agents
    }
}

/// Has `eater` eat `eaten` and says whether it did. The eater gains the
/// nutrition of the eaten, as far as its capacity allows, and the eaten
/// dies at once. Nothing happens if either is dead, if they are one and
/// the same, if the eater has no energy or the other cannot be eaten.
pub fn eat(world: &mut World, eater: u64, eaten: u64) -> (ate: bool)
    requires
        old(world).wf(),
    ensures
        final(world).wf(),
        ate == can_feed(old(world)@, eater, eaten),
        final(world)@ == after_eat(old(world)@, eater, eaten),
        final(world).seen() == old(world).seen(),
        ate ==> {
            let before = old(world)@[eater as int]->0.energy->0;
            let after = final(world)@[eater as int]->0.energy->0;
            let nutrition = old(world)@[eaten as int]->0.edible->0.nutrition;
            &&& final(world).alive(eater)
            &&& !final(world).alive(eaten)
            &&& after.max == before.max
            &&& after.current - before.current == (if nutrition <= before.max - before.current {
                nutrition as int
            } else {
                before.max - before.current
            })
        },
{
    if eater == eaten {
        return false;
    }
    let nutrition: u64 = match world.get(eaten) {
        Some(prey) => match prey.edible {
            Some(f) => f.nutrition,
            None => {
                return false;
            },
        },
        None => {
            return false;
        },
    };
    let held: Energy = match world.get(eater) {
        Some(hunter) => match hunter.energy {
            Some(e) => e,
            None => {
                return false;
            },
        },
        None => {
            return false;
        },
    };
    let mut e = held;
    e.gain(nutrition);
    let agent = world.agent_mut(eater);
    agent.energy = Some(e);
    world.despawn(eaten);
    true
}

/// The agents after a collision is resolved: a meal changes them, a
/// breeding is only noted.
pub open spec fn after_collision(
    agents: Seq<Option<Agent>>,
    e: CollisionEvent,
) -> Seq<Option<Agent>> {
    match outcome(agents, e) {
        Outcome::Meal { eater, eaten } => after_eat(agents, eater, eaten),
        _ => agents,
    }
}

/// The agents after the first `n` collisions are resolved, in order.
pub open spec fn after_collisions(
    agents: Seq<Option<Agent>>,
    events: Seq<CollisionEvent>,
    n: int,
) -> Seq<Option<Agent>>
    decreases n,
{
    if n <= 0 {
        agents
    } else {
        after_collision(after_collisions(agents, events, n - 1), events[n - 1])
    }
}

/// The breedings that the first `n` collisions lead to, in order.
pub open spec fn breedings(agents: Seq<Option<Agent>>, events: Seq<CollisionEvent>, n: int) -> Seq<
    BreedEvent,
>
    decreases n,
{
    if n <= 0 {
        Seq::empty()
    } else {
        let rest = breedings(agents, events, n - 1);
        if outcome(after_collisions(agents, events, n - 1), events[n - 1]) == Outcome::Breed {
            rest.push(BreedEvent(events[n - 1].0, events[n - 1].1))
        } else {
            rest
        }
    }
}

/// Resolves the collisions in the order in which they were found. A pair
/// that breeds is handed back as a breeding; of any other pair one may eat
/// the other. A collision with an agent that has died since, eaten perhaps
/// in an earlier collision of this tick, is passed over.
pub fn handle_collisions(
    world: &mut World,
    collisions: &Vec<CollisionEvent>,
) -> (breeds: Vec<BreedEvent>)
    requires
        old(world).wf(),
    ensures
        final(world).wf(),
        final(world)@ == after_collisions(old(world)@, collisions@, collisions@.len() as int),
        breeds@ == breedings(old(world)@, collisions@, collisions@.len() as int),
        final(world).seen() == old(world).seen(),
{
    let mut breeds: Vec<BreedEvent> = Vec::new();
    let n: usize = collisions.len();
    let mut i: usize = 0;
    while i < n
        invariant
            i <= n,
            n == collisions@.len(),
            world.wf(),
            world.seen() == old(world).seen(),
            world@ == after_collisions(old(world)@, collisions@, i as int),
            breeds@ == breedings(old(world)@, collisions@, i as int),
        decreases n - i,
    {
        let e = collisions[i];
        let out: Outcome = if e.0 == e.1 {
            Outcome::Nothing
        } else {
            match (world.get(e.0), world.get(e.1)) {
                (Some(x), Some(y)) => resolve_collision(e.0, x, e.1, y),
                _ => Outcome::Nothing,
            }
        };
        match out {
            Outcome::Breed => {
                breeds.push(BreedEvent(e.0, e.1));
            },
            Outcome::Meal { eater, eaten } => {
                eat(world, eater, eaten);
            },
            Outcome::Nothing => {},
        }
        i = i + 1;
    }
    breeds
}

/// Every collision leaves the number of slots as it was, and the dead
/// stay dead.
pub proof fn lemma_collisions_keep_dead(
    agents: Seq<Option<Agent>>,
    events: Seq<CollisionEvent>,
    n: int,
    m: int,
    id: u64,
)
    requires
        0 <= n <= m <= events.len(),
    ensures
        after_collisions(agents, events, m).len() == agents.len(),
        !alive_in(after_collisions(agents, events, n), id) ==> !alive_in(
            after_collisions(agents, events, m),
            id,
        ),
    decreases m,
{
    if m > 0 {
        if n < m {
            lemma_collisions_keep_dead(agents, events, n, m - 1, id);
        } else {
            lemma_collisions_keep_dead(agents, events, n - 1, m - 1, id);
        }
    }
}

/// Whether the collision `e` among `agents` ends with `prey` eaten.
pub open spec fn is_eaten(agents: Seq<Option<Agent>>, e: CollisionEvent, prey: u64) -> bool {
    outcome(agents, e) matches Outcome::Meal { eater, eaten } && eaten == prey && can_feed(
        agents,
        eater,
        eaten,
    )
}

/// Whether the collision `e` among `agents` ends with `hunter` fed.
pub open spec fn is_fed(agents: Seq<Option<Agent>>, e: CollisionEvent, hunter: u64) -> bool {
    outcome(agents, e) matches Outcome::Meal { eater, eaten } && eater == hunter && can_feed(
        agents,
        eater,
        eaten,
    )
}

/// An agent is eaten at most once in a tick: once a collision has ended
/// with it eaten, no later collision of the same run ends with it eaten
/// again, nor with it fed.
pub proof fn lemma_eaten_once(
    agents: Seq<Option<Agent>>,
    events: Seq<CollisionEvent>,
    k: int,
    l: int,
    prey: u64,
)
    requires
        0 <= k < l < events.len(),
        is_eaten(after_collisions(agents, events, k), events[k], prey),
    ensures
        !is_eaten(after_collisions(agents, events, l), events[l], prey),
        !is_fed(after_collisions(agents, events, l), events[l], prey),
{
    lemma_collisions_keep_dead(agents, events, k + 1, l, prey);
}

/// Every breeding that a run of collisions leads to comes from a collision
/// of two living agents of one kind that both carried the breeding mark
/// when they met.
pub proof fn lemma_breedings_marked(
    agents: Seq<Option<Agent>>,
    events: Seq<CollisionEvent>,
    n: int,
    k: int,
)
    requires
        0 <= n <= events.len(),
        0 <= k < breedings(agents, events, n).len(),
    ensures
        exists|j: int|
            {
                let then = after_collisions(agents, events, j);
                let b = breedings(agents, events, n)[k];
                &&& 0 <= j < n
                &&& #[trigger] events[j] == CollisionEvent(b.0, b.1)
                &&& alive_in(then, b.0)
                &&& alive_in(then, b.1)
                &&& then[b.0 as int]->0.kind == then[b.1 as int]->0.kind
                &&& then[b.0 as int]->0.can_breed
                &&& then[b.1 as int]->0.can_breed
            },
    decreases n,
{
    let rest = breedings(agents, events, n - 1);
    if k < rest.len() {
        lemma_breedings_marked(agents, events, n - 1, k);
    }
}

/// Whether the two agents of a breeding can breed at `cost`: they are two
/// living agents, each with at least `cost` of energy.
pub open spec fn can_breed_at(agents: Seq<Option<Agent>>, b: BreedEvent, cost: u64) -> bool {
    &&& b.0 != b.1
    &&& alive_in(agents, b.0)
    &&& alive_in(agents, b.1)
    &&& agents[b.0 as int]->0.energy matches Some(e) && e.current >= cost
    &&& agents[b.1 as int]->0.energy matches Some(f) && f.current >= cost
}

/// A parent after it has paid `cost` of its energy.
pub open spec fn paid(x: Agent, cost: u64) -> Agent {
    let e = x.energy->0;
    Agent { energy: Some(Energy { current: (e.current - cost) as u64, ..e }), ..x }
}

/// The agents after a breeding under `config`: where the two can breed at
/// its breeding cost, each has paid and one newborn of the first parent's
/// kind stands at the first parent's position, under the next id; else
/// nothing changes.
pub open spec fn after_breeding(agents: Seq<Option<Agent>>, b: BreedEvent, config: Config) -> Seq<
    Option<Agent>,
> {
    let cost = config.breeding_cost as u64;
    if can_breed_at(agents, b, cost) {
        let x = agents[b.0 as int]->0;
        let y = agents[b.1 as int]->0;
        agents.update(b.0 as int, Some(paid(x, cost))).update(b.1 as int, Some(paid(y, cost))).push(
            Some(newborn(config, x.kind, x.position, None)),
        )
    } else {
        agents
    }
}

/// Has the two agents of `b` breed and returns the id of their offspring.
/// Each parent pays the breeding cost of `config`, and one newborn of the
/// first parent's kind appears at the first parent's position. Where a
/// parent is dead, has no energy or cannot pay, nobody pays and nothing is
/// born: no agent's energy ever goes below zero.
pub fn breed(world: &mut World, b: BreedEvent, config: &Config) -> (child: Option<u64>)
    requires
        old(world).wf(),
        config.valid(),
    ensures
        final(world).wf(),
        child is Some <==> can_breed_at(old(world)@, b, config.breeding_cost as u64),
        child matches Some(id) ==> id == old(world)@.len() && final(world).seen() == old(
            world,
        ).seen().push(Seq::empty()),
        child is None ==> final(world).seen() == old(world).seen(),
        final(world)@ == after_breeding(old(world)@, b, *config),
{
    let cost: u64 = config.breeding_cost as u64;
    if b.0 == b.1 {
        return None;
    }
    let (first, kind, position): (Energy, EntityKind, Position) = match world.get(b.0) {
        Some(x) => match x.energy {
            Some(e) => (e, x.kind, x.position),
            None => {
                return None;
            },
        },
        None => {
            return None;
        },
    };
    let second: Energy = match world.get(b.1) {
        Some(y) => match y.energy {
            Some(f) => f,
            None => {
                return None;
            },
        },
        None => {
            return None;
        },
    };
    if !first.can_afford(cost) || !second.can_afford(cost) {
        return None;
    }
    let mut e = first;
    e.spend(cost);
    let mut f = second;
    f.spend(cost);
    let x = world.agent_mut(b.0);
    x.energy = Some(e);
    let y = world.agent_mut(b.1);
    y.energy = Some(f);
    Some(spawn_kind(world, config, kind, position, None))
}

/// The agents after the first `n` breedings under `config`, in order.
pub open spec fn after_breedings(
    agents: Seq<Option<Agent>>,
    events: Seq<BreedEvent>,
    config: Config,
    n: int,
) -> Seq<Option<Agent>>
    decreases n,
{
    if n <= 0 {
        agents
    } else {
        after_breeding(after_breedings(agents, events, config, n - 1), events[n - 1], config)
    }
}

/// Works off the breedings in the order in which they were noted, each as
/// `breed` does it, and returns the ids of the offspring in the order of
/// their birth.
pub fn handle_breeding(world: &mut World, events: &Vec<BreedEvent>, config: &Config) -> (children: Vec<
    u64,
>)
    requires
        old(world).wf(),
        config.valid(),
    ensures
        final(world).wf(),
        final(world)@ == after_breedings(old(world)@, events@, *config, events@.len() as int),
        children@.len() == final(world)@.len() - old(world)@.len(),
        forall|k: int|
            0 <= k < children@.len() ==> #[trigger] children@[k] == old(world)@.len() + k,
        final(world).seen() == old(world).seen() + Seq::new(
            children@.len(),
            |k: int| Seq::<Sighting>::empty(),
        ),
{
    let mut children: Vec<u64> = Vec::new();
    let n: usize = events.len();
    let mut i: usize = 0;
    while i < n
        invariant
            i <= n,
            n == events@.len(),
            world.wf(),
            config.valid(),
            world@ == after_breedings(old(world)@, events@, *config, i as int),
            children@.len() == world@.len() - old(world)@.len(),
            forall|k: int|
                0 <= k < children@.len() ==> #[trigger] children@[k] == old(world)@.len() + k,
            world.seen() == old(world).seen() + Seq::new(
                children@.len(),
                |k: int| Seq::<Sighting>::empty(),
            ),
        decreases n - i,
    {
        match breed(world, events[i], config) {
            Some(id) => {
                children.push(id);
            },
            None => {},
        }
        i = i + 1;
    }
    children
}

/// Resolving collisions keeps every agent's energy within its capacity.
pub proof fn lemma_collisions_keep_wf(agents: Seq<Option<Agent>>, events: Seq<CollisionEvent>, n: int)
    requires
        all_wf(agents),
    ensures
        all_wf(after_collisions(agents, events, n)),
    decreases n,
{
    if n > 0 {
        lemma_collisions_keep_wf(agents, events, n - 1);
    }
}

/// Breeding keeps every agent's energy within its capacity, that of the
/// newborn too.
pub proof fn lemma_breedings_keep_wf(
    agents: Seq<Option<Agent>>,
    events: Seq<BreedEvent>,
    config: Config,
    n: int,
)
    requires
        all_wf(agents),
    ensures
        all_wf(after_breedings(agents, events, config, n)),
    decreases n,
{
    if n > 0 {
        lemma_breedings_keep_wf(agents, events, config, n - 1);
    }
}

/// What a breeding does: each parent has paid the cost, one newborn of the
/// first parent's kind stands at the first parent's position under the next
/// id, and every other agent is as it was.
pub proof fn lemma_breeding(agents: Seq<Option<Agent>>, b: BreedEvent, config: Config)
    requires
        can_breed_at(agents, b, config.breeding_cost as u64),
    ensures
        ({
            let cost = config.breeding_cost as u64;
            let after = after_breeding(agents, b, config);
            let x = agents[b.0 as int]->0;
            let y = agents[b.1 as int]->0;
            &&& after.len() == agents.len() + 1
            &&& after[b.0 as int] == Some(paid(x, cost))
            &&& after[b.1 as int] == Some(paid(y, cost))
            &&& paid(x, cost).energy->0.current == x.energy->0.current - cost
            &&& paid(y, cost).energy->0.current == y.energy->0.current - cost
            &&& after[agents.len() as int] == Some(newborn(config, x.kind, x.position, None))
            &&& forall|i: int|
                0 <= i < agents.len() && i != b.0 && i != b.1 ==> after[i] == agents[i]
        }),
{
}

} // verus!
