//! Energy metabolism over the whole world: the drain of every tick, death by
//! starvation, and who may breed.

use crate::energy::{after_loss, drained, Energy};
use crate::entities::Agent;
use crate::world::World;
use vstd::prelude::*;

verus! {

/// What a tick of `dt_ms` milliseconds leaves of a slot: an agent without
/// energy as it was, one whose energy is used up gone, any other with its
/// energy drained.
pub open spec fn slot_after_drain(slot: Option<Agent>, dt_ms: u64) -> Option<Agent> {
    match slot {
        None => None,
        Some(a) => match a.energy {
            None => Some(a),
            Some(e) => {
                let left = after_loss(e.current as int, drained(e.drain_rate as int, dt_ms as int));
                if left == 0 {
                    None
                } else {
                    Some(Agent { energy: Some(Energy { current: left as u64, ..e }), ..a })
                }
            },
        },
    }
}

/// Whether `dead` lists, in rising order, the ids below `n` that live in
/// `before` and not in `after`.
pub open spec fn lists_deaths(
    dead: Seq<u64>,
    before: Seq<Option<Agent>>,
    after: Seq<Option<Agent>>,
    n: int,
) -> bool {
    &&& forall|k: int, l: int| 0 <= k < l < dead.len() ==> dead[k] < dead[l]
    &&& forall|k: int| 0 <= k < dead.len() ==> dead[k] < n
    &&& forall|id: u64|
        dead.contains(id) <==> id < n && id < before.len() && #[trigger] before[id as int] is Some
            && after[id as int] is None
}

/// Drains every agent's energy for a tick of `dt_ms` milliseconds. An agent
/// whose energy reaches zero dies at once; the ids of the dead are returned
/// in rising order.
pub fn energy_drain(world: &mut World, dt_ms: u64) -> (dead: Vec<u64>)
    requires
        old(world).wf(),
    ensures
        final(world).wf(),
        final(world)@.len() == old(world)@.len(),
        forall|i: int|
            0 <= i < old(world)@.len() ==> #[trigger] final(world)@[i] == slot_after_drain(
                old(world)@[i],
                dt_ms,
            ),
        lists_deaths(dead@, old(world)@, final(world)@, old(world)@.len() as int),
        final(world).seen() == old(world).seen(),
{
    let mut dead: Vec<u64> = Vec::new();
    let n: usize = world.len();
    let mut i: usize = 0;
    while i < n
        invariant
            i <= n,
            n == old(world)@.len(),
            world@.len() == n,
            world.wf(),
            world.seen() == old(world).seen(),
            forall|j: int| 0 <= j < i ==> #[trigger] world@[j] == slot_after_drain(old(world)@[j], dt_ms),
            forall|j: int| i <= j < n ==> #[trigger] world@[j] == old(world)@[j],
            lists_deaths(dead@, old(world)@, world@, i as int),
        decreases n - i,
    {
        let id: u64 = i as u64;
        let ghost dead_before = dead@;
        let held: Option<Energy> = match world.get(id) {
            Some(agent) => agent.energy,
            None => None,
        };
        match held {
            Some(e) => {
                let mut e = e;
                let depleted: bool = e.drain(dt_ms);
                if depleted {
                    world.despawn(id);
                    dead.push(id);
                } else {
                    let agent = world.agent_mut(id);
                    agent.energy = Some(e);
                }
            },
            None => {},
        }
        proof {
            assert forall|id2: u64|
                dead@.contains(id2) <==> id2 < i + 1 && id2 < old(world)@.len()
                    && #[trigger] old(world)@[id2 as int] is Some && world@[id2 as int] is None by {
                if id2 < i + 1 && id2 < old(world)@.len() && old(world)@[id2 as int] is Some
                    && world@[id2 as int] is None {
                    if id2 < i {
                        let k = choose|k: int| 0 <= k < dead_before.len() && dead_before[k] == id2;
                        assert(dead@[k] == id2);
                    } else {
                        assert(dead@[dead@.len() - 1] == id2);
                    }
                }
            }
        }
        i = i + 1;
    }
    dead
}

/// Whether an agent with this energy and threshold may breed: it has both,
/// and its energy has reached the threshold.
pub open spec fn eligible(energy: Option<Energy>, threshold: Option<u64>) -> bool {
    match (energy, threshold) {
        (Some(e), Some(t)) => e.current >= t,
        _ => false,
    }
}

/// A slot with the breeding mark set anew: an agent with energy and a
/// breeding threshold carries it exactly while its energy has reached the
/// threshold; any other agent keeps what it had.
pub open spec fn slot_with_breed_status(slot: Option<Agent>) -> Option<Agent> {
    match slot {
        Some(a) => if a.energy is Some && a.breeding_threshold is Some {
            Some(Agent { can_breed: eligible(a.energy, a.breeding_threshold), ..a })
        } else {
            Some(a)
        },
        None => None,
    }
}

/// Sets every agent's breeding mark from its energy and threshold. There is
/// no margin: an agent at the threshold may gain and lose the mark from one
/// tick to the next.
pub fn manage_breed_status(world: &mut World)
    requires
        old(world).wf(),
    ensures
        final(world).wf(),
        final(world)@.len() == old(world)@.len(),
        forall|i: int|
            0 <= i < old(world)@.len() ==> #[trigger] final(world)@[i] == slot_with_breed_status(
                old(world)@[i],
            ),
        final(world).seen() == old(world).seen(),
{
    let n: usize = world.len();
    let mut i: usize = 0;
    while i < n
        invariant
            i <= n,
            n == old(world)@.len(),
            world@.len() == n,
            world.wf(),
            world.seen() == old(world).seen(),
            forall|j: int| 0 <= j < i ==> #[trigger] world@[j] == slot_with_breed_status(old(world)@[j]),
            forall|j: int| i <= j < n ==> #[trigger] world@[j] == old(world)@[j],
        decreases n - i,
    {
        let id: u64 = i as u64;
        let mark: Option<bool> = match world.get(id) {
            Some(agent) => match (agent.energy, agent.breeding_threshold) {
                (Some(e), Some(t)) => Some(e.current >= t),
                _ => None,
            },
            None => None,
        };
        match mark {
            Some(m) => {
                let agent = world.agent_mut(id);
                agent.can_breed = m;
            },
            None => {},
        }
        i = i + 1;
    }
}

} // verus!
