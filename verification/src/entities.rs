//! The agents of the ecosystem and the parts they are made of.

use crate::energy::Energy;
use crate::geometry::{Point, Position};
use vstd::prelude::*;

verus! {

/// What an agent is. It never changes after the agent is created.
#[derive(Clone, Copy, Debug, PartialEq, Eq, Structural)]
pub enum EntityKind {
    Plant,
    Prey,
    Predator,
}

/// Marker type for predators.
#[derive(Clone, Copy, Debug, PartialEq, Eq, Structural)]
pub struct Predator;

/// Marker type for prey.
#[derive(Clone, Copy, Debug, PartialEq, Eq, Structural)]
pub struct Prey;

/// Marker type for plants.
#[derive(Clone, Copy, Debug, PartialEq, Eq, Structural)]
pub struct Plant;

/// The kinds an agent may eat. Predation goes by kind, not by individual.
#[derive(Clone, Copy, Debug, PartialEq, Eq, Structural)]
pub struct Diet {
    pub plant: bool,
    pub prey: bool,
    pub predator: bool,
}

impl Diet {
    /// Whether `kind` is on the menu.
    pub open spec fn includes(self, kind: EntityKind) -> bool {
        match kind {
            EntityKind::Plant => self.plant,
            EntityKind::Prey => self.prey,
            EntityKind::Predator => self.predator,
        }
    }

    /// Whether `kind` is on the menu.
    pub fn eats(&self, kind: EntityKind) -> (b: bool)
        ensures
            b == self.includes(kind),
    {
        match kind {
            EntityKind::Plant => self.plant,
            EntityKind::Prey => self.prey,
            EntityKind::Predator => self.predator,
        }
    }

    /// The diet of an agent that eats nothing.
    pub fn nothing() -> (d: Diet)
        ensures
            d == (Diet { plant: false, prey: false, predator: false }),
            forall|kind: EntityKind| !d.includes(kind),
    {
        Diet { plant: false, prey: false, predator: false }
    }

    /// The diet of an agent that eats `kind` and nothing else.
    pub fn only(kind: EntityKind) -> (d: Diet)
        ensures
            d == (Diet {
                plant: kind == EntityKind::Plant,
                prey: kind == EntityKind::Prey,
                predator: kind == EntityKind::Predator,
            }),
            forall|other: EntityKind| d.includes(other) == (other == kind),
    {
        match kind {
            EntityKind::Plant => Diet { plant: true, prey: false, predator: false },
            EntityKind::Prey => Diet { plant: false, prey: true, predator: false },
            EntityKind::Predator => Diet { plant: false, prey: false, predator: true },
        }
    }
}

/// The energy that an agent yields to whoever eats it.
#[derive(Clone, Copy, Debug, PartialEq, Eq, Structural)]
pub struct Edible {
    pub nutrition: u64,
}

/// Limits on how an agent moves: top speed in position units per second and
/// turning rate in thousandths of a radian per second.
#[derive(Clone, Copy, Debug, PartialEq, Eq, Structural)]
pub struct Traits {
    pub max_speed: u32,
    pub turn_speed: u32,
}

/// How an agent is moving: its heading in thousandths of a radian,
/// counter-clockwise from the x axis, and its speed.
#[derive(Clone, Copy, Debug, PartialEq, Eq, Structural)]
pub struct Motion {
    pub direction: i32,
    pub speed: u32,
}

/// What an agent is doing about where it goes. A target may have died since
/// it was chosen.
#[derive(Clone, Copy, Debug, PartialEq, Eq, Structural)]
pub enum MotionBehavior {
    Seek { target: u64 },
    Evade { target: u64 },
    Wander,
}

/// One agent seen by another: who, what, and the squared distance in cells.
#[derive(Clone, Copy, Debug, PartialEq, Eq, Structural)]
pub struct Sighting {
    pub id: u64,
    pub kind: EntityKind,
    pub dist_sq: u128,
}

/// How far an agent sees, in cells. What it saw this tick is kept by the
/// world, nearest first.
#[derive(Clone, Copy, Debug, PartialEq, Eq, Structural)]
pub struct Vision {
    pub range: u32,
}

/// An agent: a plant, a prey animal or a predator, with the parts it has.
/// `place` is where it is in the world and `position` the cell it stands
/// in; a move sets both, the cell from the place.
#[derive(Clone, Copy, Debug, PartialEq, Eq, Structural)]
pub struct Agent {
    pub kind: EntityKind,
    pub place: Point,
    pub position: Position,
    pub energy: Option<Energy>,
    pub breeding_threshold: Option<u64>,
    pub can_breed: bool,
    pub diet: Diet,
    pub edible: Option<Edible>,
    pub vision: Option<Vision>,
    pub behavior: Option<MotionBehavior>,
    pub motion: Option<Motion>,
    pub traits: Option<Traits>,
}

impl Agent {
    /// The agent's energy, where it has any, is within its capacity.
    pub open spec fn wf(self) -> bool {
        self.energy matches Some(e) ==> e.wf()
    }
}

} // verus!
