//! The world: every agent that lives or has lived, each under an id that is
//! never given out twice.

use crate::entities::{Agent, EntityKind, Sighting};
use crate::geometry::{Point, Position};
use vstd::prelude::*;

verus! {

/// The set of agents. An id is a slot number; the slot of a dead agent stays
/// empty for good, so an id kept from an earlier tick can never come to name
/// another agent.
pub struct World {
    agents: Vec<Option<Agent>>,
    seen: Vec<Vec<Sighting>>,
}

impl View for World {
    type V = Seq<Option<Agent>>;

    /// One entry per id ever given out: the agent, or nothing once it died.
    closed spec fn view(&self) -> Seq<Option<Agent>> {
        self.agents@
    }
}

/// What a host may know of an agent to draw it: who, what and where.
#[derive(Clone, Copy, Debug, PartialEq, Eq, Structural)]
pub struct Snapshot {
    pub id: u64,
    pub kind: EntityKind,
    pub place: Point,
    pub position: Position,
}

/// The snapshots of the living agents among the first `n` slots, in the
/// order of their ids.
pub open spec fn snapshots(agents: Seq<Option<Agent>>, n: int) -> Seq<Snapshot>
    decreases n,
{
    if n <= 0 {
        Seq::empty()
    } else {
        let rest = snapshots(agents, n - 1);
        match agents[n - 1] {
            Some(a) => rest.push(
                Snapshot { id: (n - 1) as u64, kind: a.kind, place: a.place, position: a.position },
            ),
            None => rest,
        }
    }
}

/// Whether `id` names a living agent among `agents`.
pub open spec fn alive_in(agents: Seq<Option<Agent>>, id: u64) -> bool {
    id < agents.len() && agents[id as int] is Some
}

/// Whether every living agent among `agents` is well formed.
pub open spec fn all_wf(agents: Seq<Option<Agent>>) -> bool {
    forall|i: int| 0 <= i < agents.len() ==> (#[trigger] agents[i] matches Some(a) ==> a.wf())
}

impl World {
    /// What each agent saw when it last looked, one list per id.
    pub closed spec fn seen(self) -> Seq<Seq<Sighting>> {
        Seq::new(self.seen@.len(), |i: int| self.seen@[i]@)
    }

    /// Every living agent's energy is within its capacity, every id fits in
    /// 64 bits, and every id has its list of sightings.
    pub open spec fn wf(self) -> bool {
        &&& all_wf(self@)
        &&& self@.len() <= u64::MAX
        &&& self.seen().len() == self@.len()
    }

    /// Whether `id` names a living agent.
    pub open spec fn alive(self, id: u64) -> bool {
        alive_in(self@, id)
    }

    /// A world without agents.
    pub fn new() -> (world: World)
        ensures
            world@ == Seq::<Option<Agent>>::empty(),
            world.wf(),
    {
        World { agents: Vec::new(), seen: Vec::new() }
    }

    /// What the agent under `id` saw when it last looked, nearest first.
    pub fn sightings(&self, id: u64) -> (list: &Vec<Sighting>)
        requires
            id < self.seen().len(),
        ensures
            list@ == self.seen()[id as int],
    {
        let n: usize = self.seen.len();
        &self.seen[id as usize]
    }

    /// Replaces what the agent under `id` saw.
    pub fn set_sightings(&mut self, id: u64, list: Vec<Sighting>)
        requires
            id < old(self).seen().len(),
        ensures
            final(self)@ == old(self)@,
            final(self).seen() == old(self).seen().update(id as int, list@),
    {
        let n: usize = self.seen.len();
        self.seen[id as usize] = list;
    }

    /// How many ids were given out so far.
    pub fn len(&self) -> (n: usize)
        ensures
            n == self@.len(),
    {
        self.agents.len()
    }

    /// Whether `id` names a living agent.
    pub fn is_alive(&self, id: u64) -> (b: bool)
        ensures
            b == self.alive(id),
    {
        if id >= self.agents.len() as u64 {
            false
        } else {
            self.agents[id as usize].is_some()
        }
    }

    /// The agent under `id`, if it lives.
    pub fn get(&self, id: u64) -> (found: Option<&Agent>)
        ensures
            self.alive(id) ==> found == Some(&self@[id as int]->0),
            !self.alive(id) ==> found is None,
    {
        if id >= self.agents.len() as u64 {
            None
        } else {
            self.agents[id as usize].as_ref()
        }
    }

    /// Puts `agent` in the place of the living agent under `id` and says
    /// whether it did. An agent that is not well formed is turned away, and
    /// so is one of another kind: what an agent is never changes.
    pub fn replace(&mut self, id: u64, agent: Agent) -> (replaced: bool)
        requires
            old(self).wf(),
        ensures
            final(self).wf(),
            replaced <==> old(self).alive(id) && agent.wf() && agent.kind == old(
                self,
            )@[id as int]->0.kind,
            replaced ==> final(self)@ == old(self)@.update(id as int, Some(agent)),
            !replaced ==> final(self)@ == old(self)@,
            final(self).seen() == old(self).seen(),
    {
        let fits: bool = match &agent.energy {
            Some(e) => e.current <= e.max,
            None => true,
        };
        let same: bool = match self.get(id) {
            Some(a) => a.kind == agent.kind,
            None => false,
        };
        if !fits || !same {
            return false;
        }
        let slot = self.agent_mut(id);
        *slot = agent;
        true
    }

    /// The living agent under `id`, to be changed in place.
    pub(crate) fn agent_mut(&mut self, id: u64) -> (agent: &mut Agent)
        requires
            old(self).alive(id),
        ensures
            *agent == old(self)@[id as int]->0,
            final(self)@ == old(self)@.update(id as int, Some(*final(agent))),
            final(self).seen() == old(self).seen(),
    {
        let n: usize = self.agents.len();
        let i: usize = id as usize;
        self.agents[i].as_mut().unwrap()
    }

    /// Adds `agent` under a new id, which is returned. An agent that is not
    /// well formed is turned away.
    pub fn spawn(&mut self, agent: Agent) -> (id: Option<u64>)
        requires
            old(self).wf(),
        ensures
            final(self).wf(),
            id is Some <==> agent.wf(),
            id matches Some(n) ==> n == old(self)@.len() && final(self)@ == old(self)@.push(
                Some(agent),
            ) && final(self).seen() == old(self).seen().push(Seq::empty()),
            id is None ==> final(self)@ == old(self)@ && final(self).seen() == old(self).seen(),
    {
        let fits: bool = match &agent.energy {
            Some(e) => e.current <= e.max,
            None => true,
        };
        if !fits {
            return None;
        }
        let id: u64 = self.agents.len() as u64;
        self.agents.push(Some(agent));
        self.seen.push(Vec::new());
        let count: usize = self.agents.len();
        Some(id)
    }

    /// Removes the agent under `id` and says whether there was one. Its id
    /// is not used again.
    pub fn despawn(&mut self, id: u64) -> (removed: bool)
        requires
            old(self).wf(),
        ensures
            final(self).wf(),
            removed == old(self).alive(id),
            removed ==> final(self)@ == old(self)@.update(id as int, None),
            !removed ==> final(self)@ == old(self)@,
            final(self).seen() == old(self).seen(),
    {
        if id >= self.agents.len() as u64 {
            return false;
        }
        let removed: bool = self.agents[id as usize].is_some();
        if removed {
            self.agents[id as usize] = None;
        }
        removed
    }

    /// Who lives, of what kind and where, in the order of the ids: all that
    /// a host needs to draw the world, and nothing that it could change.
    pub fn snapshot(&self) -> (shots: Vec<Snapshot>)
        requires
            self.wf(),
        ensures
            shots@ == snapshots(self@, self@.len() as int),
    {
        let mut shots: Vec<Snapshot> = Vec::new();
        let n: usize = self.agents.len();
        let mut i: usize = 0;
        while i < n
            invariant
                i <= n,
                n == self@.len(),
                n <= u64::MAX,
                shots@ == snapshots(self@, i as int),
            decreases n - i,
        {
            match &self.agents[i] {
                Some(a) => {
                    shots.push(
                        Snapshot {
                            id: i as u64,
                            kind: a.kind,
                            place: a.place,
                            position: a.position,
                        },
                    );
                },
                None => {},
            }
            i = i + 1;
        }
        shots
    }
}

} // verus!
