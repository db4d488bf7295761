//! Perception: what each agent sees of the others, nearest first.

use crate::entities::{Agent, Sighting};
use crate::geometry::lemma_sq_dist_bounds;
use crate::world::World;
use vstd::prelude::*;

verus! {

/// Whether `other` matters to `viewer`: it is food, or it is a mate, that is
/// of the viewer's kind while both carry the breeding mark and have energy.
pub open spec fn relevant(viewer: Agent, other: Agent) -> bool {
    ||| viewer.diet.includes(other.kind) && other.edible is Some
    ||| {
        &&& other.kind == viewer.kind
        &&& viewer.can_breed
        &&& viewer.energy is Some
        &&& other.can_breed
        &&& other.energy is Some
    }
}

/// Whether the agent under `viewer` sees the one in slot `j`: another living
/// agent, strictly within range, that matters to it.
pub open spec fn sees(agents: Seq<Option<Agent>>, viewer: int, j: int) -> bool {
    &&& 0 <= viewer < agents.len()
    &&& 0 <= j < agents.len()
    &&& j != viewer
    &&& agents[viewer] matches Some(a)
    &&& a.vision matches Some(v)
    &&& agents[j] matches Some(b)
    &&& a.position.spec_dist_sq(b.position) < v.range * v.range
    &&& relevant(a, b)
}

/// What the viewer notes of the agent in slot `j`.
pub open spec fn sighting(agents: Seq<Option<Agent>>, viewer: int, j: int) -> Sighting {
    Sighting {
        id: j as u64,
        kind: agents[j]->0.kind,
        dist_sq: agents[viewer]->0.position.spec_dist_sq(agents[j]->0.position) as u128,
    }
}

/// Where a new sighting goes in a list that is sorted by distance: behind
/// every entry that is no farther away.
pub open spec fn place(list: Seq<Sighting>, x: Sighting) -> int
    decreases list.len(),
{
    if list.len() == 0 {
        0
    } else if list.last().dist_sq <= x.dist_sq {
        list.len() as int
    } else {
        place(list.drop_last(), x)
    }
}

/// What the viewer sees among the first `n` slots: the agents it sees, by
/// rising distance, those equally far in the order of their ids.
pub open spec fn perceived(agents: Seq<Option<Agent>>, viewer: int, n: int) -> Seq<Sighting>
    decreases n,
{
    if n <= 0 {
        Seq::empty()
    } else {
        let rest = perceived(agents, viewer, n - 1);
        if sees(agents, viewer, n - 1) {
            let x = sighting(agents, viewer, n - 1);
            rest.insert(place(rest, x), x)
        } else {
            rest
        }
    }
}

/// Whether `list` is sorted by distance, nearest first.
pub open spec fn sorted(list: Seq<Sighting>) -> bool {
    forall|k: int, l: int| 0 <= k <= l < list.len() ==> list[k].dist_sq <= list[l].dist_sq
}

/// The place of a new sighting lies within the list, behind the entries that
/// are no farther and before those that are.
pub proof fn lemma_place(list: Seq<Sighting>, x: Sighting)
    requires
        sorted(list),
    ensures
        0 <= place(list, x) <= list.len(),
        forall|k: int| 0 <= k < place(list, x) ==> list[k].dist_sq <= x.dist_sq,
        forall|k: int| place(list, x) <= k < list.len() ==> list[k].dist_sq > x.dist_sq,
    decreases list.len(),
{
    if list.len() > 0 && list.last().dist_sq > x.dist_sq {
        let front = list.drop_last();
        lemma_place(front, x);
        assert forall|k: int| 0 <= k < place(list, x) implies list[k].dist_sq <= x.dist_sq by {
            assert(front[k] == list[k]);
        }
        assert forall|k: int| place(list, x) <= k < list.len() implies list[k].dist_sq
            > x.dist_sq by {
            if k < front.len() {
                assert(front[k] == list[k]);
            }
        }
    }
}

/// Whether `s` is what the viewer notes of an agent that it sees among the
/// first `n` slots; such a sighting lies strictly within the viewer's range.
pub open spec fn noted(agents: Seq<Option<Agent>>, viewer: int, n: int, s: Sighting) -> bool {
    &&& s.id < n
    &&& sees(agents, viewer, s.id as int)
    &&& s == sighting(agents, viewer, s.id as int)
    &&& s.dist_sq < agents[viewer]->0.vision->0.range * agents[viewer]->0.vision->0.range
}

/// The sighting of an agent that the viewer sees is noted.
pub proof fn lemma_sighting_noted(agents: Seq<Option<Agent>>, viewer: int, j: int)
    requires
        sees(agents, viewer, j),
        agents.len() <= u64::MAX,
    ensures
        noted(agents, viewer, j + 1, sighting(agents, viewer, j)),
{
    let a = agents[viewer]->0.position;
    let b = agents[j]->0.position;
    lemma_sq_dist_bounds(a.x, a.y, b.x, b.y);
}

/// Every entry of what an agent sees is the sighting of an agent that it
/// sees, strictly within its range.
pub proof fn lemma_perceived_noted(agents: Seq<Option<Agent>>, viewer: int, n: int)
    requires
        0 <= n <= agents.len(),
        agents.len() <= u64::MAX,
    ensures
        forall|k: int|
            0 <= k < perceived(agents, viewer, n).len() ==> noted(
                agents,
                viewer,
                n,
                #[trigger] perceived(agents, viewer, n)[k],
            ),
    decreases n,
{
    if n > 0 {
        lemma_perceived_noted(agents, viewer, n - 1);
        lemma_perceived_sorted(agents, viewer, n - 1);
        if sees(agents, viewer, n - 1) {
            lemma_place(perceived(agents, viewer, n - 1), sighting(agents, viewer, n - 1));
            lemma_sighting_noted(agents, viewer, n - 1);
        }
    }
}

/// What an agent sees is sorted by distance, nearest first.
pub proof fn lemma_perceived_sorted(agents: Seq<Option<Agent>>, viewer: int, n: int)
    ensures
        sorted(perceived(agents, viewer, n)),
    decreases n,
{
    if n > 0 {
        lemma_perceived_sorted(agents, viewer, n - 1);
        if sees(agents, viewer, n - 1) {
            lemma_place(perceived(agents, viewer, n - 1), sighting(agents, viewer, n - 1));
        }
    }
}

/// What an agent sees holds every agent that it sees.
pub proof fn lemma_perceived_complete(agents: Seq<Option<Agent>>, viewer: int, n: int, j: int)
    requires
        0 <= j < n,
        sees(agents, viewer, j),
    ensures
        perceived(agents, viewer, n).contains(sighting(agents, viewer, j)),
    decreases n,
{
    lemma_perceived_sorted(agents, viewer, n - 1);
    let rest = perceived(agents, viewer, n - 1);
    let now = perceived(agents, viewer, n);
    let y = sighting(agents, viewer, j);
    if j < n - 1 {
        lemma_perceived_complete(agents, viewer, n - 1, j);
        let k = choose|k: int| 0 <= k < rest.len() && rest[k] == y;
        if sees(agents, viewer, n - 1) {
            let x = sighting(agents, viewer, n - 1);
            lemma_place(rest, x);
            if k >= place(rest, x) {
                assert(now[k + 1] == y);
            }
        } else {
            assert(now[k] == y);
        }
    } else {
        lemma_place(rest, y);
        assert(now[place(rest, y)] == y);
    }
}

/// No agent stands twice in what an agent sees.
pub proof fn lemma_perceived_distinct(agents: Seq<Option<Agent>>, viewer: int, n: int)
    requires
        0 <= n <= agents.len(),
        agents.len() <= u64::MAX,
    ensures
        forall|k: int, l: int|
            0 <= k < l < perceived(agents, viewer, n).len() ==> perceived(agents, viewer, n)[k].id
                != perceived(agents, viewer, n)[l].id,
    decreases n,
{
    if n > 0 {
        lemma_perceived_distinct(agents, viewer, n - 1);
        lemma_perceived_noted(agents, viewer, n - 1);
        lemma_perceived_sorted(agents, viewer, n - 1);
        if sees(agents, viewer, n - 1) {
            lemma_place(perceived(agents, viewer, n - 1), sighting(agents, viewer, n - 1));
        }
    }
}

/// Where `x` goes in `list`: behind every entry that is no farther away.
fn find_place(list: &Vec<Sighting>, x: &Sighting) -> (p: usize)
    ensures
        p == place(list@, *x),
        p <= list@.len(),
{
    let mut p: usize = list.len();
    proof {
        assert(list@.take(list@.len() as int) =~= list@);
    }
    while p > 0 && list[p - 1].dist_sq > x.dist_sq
        invariant
            p <= list@.len(),
            place(list@, *x) == place(list@.take(p as int), *x),
        decreases p,
    {
        proof {
            assert(list@.take(p as int).drop_last() =~= list@.take(p - 1));
        }
        p = p - 1;
    }
    p
}

/// What the agent under `viewer` sees right now: every other living agent
/// strictly within its range that is food or a mate to it, by rising
/// distance, those equally far in the order of their ids. An agent that is
/// dead or has no vision sees nothing.
pub fn perceive(world: &World, viewer: u64) -> (visible: Vec<Sighting>)
    requires
        world.wf(),
    ensures
        visible@ == perceived(world@, viewer as int, world@.len() as int),
        sorted(visible@),
        forall|k: int|
            0 <= k < visible@.len() ==> noted(
                world@,
                viewer as int,
                world@.len() as int,
                #[trigger] visible@[k],
            ),
{
    let mut visible: Vec<Sighting> = Vec::new();
    let n: usize = world.len();
    proof {
        lemma_perceived_sorted(world@, viewer as int, n as int);
        lemma_perceived_noted(world@, viewer as int, n as int);
    }
    let me: &Agent = match world.get(viewer) {
        Some(a) => a,
        None => {
            proof {
                lemma_blind(world@, viewer as int, n as int);
            }
            return visible;
        },
    };
    let range: u32 = match &me.vision {
        Some(v) => v.range,
        None => {
            proof {
                lemma_blind(world@, viewer as int, n as int);
            }
            return visible;
        },
    };
    assert(range * range <= 0xffff_ffff * 0xffff_ffff) by (nonlinear_arith)
        requires
            0 <= range <= 0xffff_ffff,
    ;
    let range_sq: u128 = (range as u128) * (range as u128);
    let mut j: usize = 0;
    while j < n
        invariant
            j <= n,
            n == world@.len(),
            n <= u64::MAX,
            world.alive(viewer),
            *me == world@[viewer as int]->0,
            me.vision matches Some(v) && v.range == range,
            range_sq == range * range,
            visible@ == perceived(world@, viewer as int, j as int),
        decreases n - j,
    {
        match world.get(j as u64) {
            Some(other) => {
                if j as u64 != viewer {
                    let d: u128 = me.position.dist_sq(&other.position);
                    let food: bool = me.diet.eats(other.kind) && other.edible.is_some();
                    let mate: bool = other.kind == me.kind && me.can_breed && me.energy.is_some()
                        && other.can_breed && other.energy.is_some();
                    if d < range_sq && (food || mate) {
                        let x = Sighting { id: j as u64, kind: other.kind, dist_sq: d };
                        let p: usize = find_place(&visible, &x);
                        visible.insert(p, x);
                    }
                }
            },
            None => {},
        }
        j = j + 1;
    }
    visible
}

/// An agent that is dead or has no vision sees nothing.
pub proof fn lemma_blind(agents: Seq<Option<Agent>>, viewer: int, n: int)
    requires
        !(0 <= viewer < agents.len() && agents[viewer] is Some && agents[viewer]->0.vision is Some),
    ensures
        perceived(agents, viewer, n) == Seq::<Sighting>::empty(),
    decreases n,
{
    if n > 0 {
        lemma_blind(agents, viewer, n - 1);
    }
}

/// Gives every agent its sightings of this tick, in place of those of the
/// tick before. The agents themselves do not change.
pub fn vision_system(world: &mut World)
    requires
        old(world).wf(),
    ensures
        final(world).wf(),
        final(world)@ == old(world)@,
        forall|i: int|
            0 <= i < old(world)@.len() ==> #[trigger] final(world).seen()[i] == perceived(
                old(world)@,
                i,
                old(world)@.len() as int,
            ),
{
    let n: usize = world.len();
    let mut i: usize = 0;
    while i < n
        invariant
            i <= n,
            n == old(world)@.len(),
            world.wf(),
            world@ == old(world)@,
            forall|j: int|
                0 <= j < i ==> #[trigger] world.seen()[j] == perceived(old(world)@, j, n as int),
        decreases n - i,
    {
        let id: u64 = i as u64;
        let visible = perceive(world, id);
        world.set_sightings(id, visible);
        i = i + 1;
    }
}

} // verus!
