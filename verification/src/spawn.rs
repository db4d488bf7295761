//! Creation of agents with the stats of their kind.

use crate::config::Config;
use crate::energy::Energy;
use crate::entities::{
    Agent, Diet, Edible, EntityKind, Motion, MotionBehavior, Sighting, Traits, Vision,
};
use crate::geometry::{Point, Position};
use crate::movement::{cell_centre, centre_of};
use crate::random::roll;
use crate::world::World;
use vstd::prelude::*;

verus! {

/// Energy that a plant yields when eaten.
pub const PLANT_NUTRITION: u64 = 5_000;

/// Energy that a prey animal yields when eaten.
pub const PREY_NUTRITION: u64 = 20_000;

/// Energy with which an animal starts its life.
pub const JUVENILE_ENERGY: u64 = 20_000;

/// The most energy an animal can hold.
pub const MAX_ENERGY: u64 = 100_000;

/// Speed at which an animal sets out.
pub const JUVENILE_SPEED: u32 = 50_000;

/// A newly created agent of `kind` in the middle of the cell `position`,
/// under `config`. A plant can only be eaten. An animal starts with the energy of a juvenile,
/// roaming, without the breeding mark; it sees, drains and may breed as
/// `config` has it; prey eats plants and can be eaten, a predator eats prey.
/// An animal has `traits` if they are given, else those of `config`.
pub open spec fn newborn(
    config: Config,
    kind: EntityKind,
    position: Position,
    traits: Option<Traits>,
) -> Agent {
    match kind {
        EntityKind::Plant => Agent {
            kind,
            place: centre_of(position),
            position,
            energy: None,
            breeding_threshold: None,
            can_breed: false,
            diet: Diet { plant: false, prey: false, predator: false },
            edible: Some(Edible { nutrition: PLANT_NUTRITION }),
            vision: None,
            behavior: None,
            motion: None,
            traits: None,
        },
        _ => Agent {
            kind,
            place: centre_of(position),
            position,
            energy: Some(
                Energy {
                    current: JUVENILE_ENERGY,
                    max: MAX_ENERGY,
                    drain_rate: config.drain_rate as u64,
                },
            ),
            breeding_threshold: Some(config.breeding_threshold as u64),
            can_breed: false,
            diet: Diet {
                plant: kind == EntityKind::Prey,
                prey: kind == EntityKind::Predator,
                predator: false,
            },
            edible: if kind == EntityKind::Prey {
                Some(Edible { nutrition: PREY_NUTRITION })
            } else {
                None
            },
            vision: Some(Vision { range: config.vision_range as u32 }),
            behavior: Some(MotionBehavior::Wander),
            motion: Some(Motion { direction: 0, speed: JUVENILE_SPEED }),
            traits: Some(
                match traits {
                    Some(t) => t,
                    None => config.traits(),
                },
            ),
        },
    }
}

/// A new agent of `kind` at `position` with the stats that `config` gives
/// its kind.
pub fn juvenile(
    config: &Config,
    kind: EntityKind,
    position: Position,
    traits: Option<Traits>,
) -> (a: Agent)
    requires
        config.valid(),
    ensures
        a == newborn(*config, kind, position, traits),
        a.wf(),
{
    match kind {
        EntityKind::Plant => Agent {
            kind,
            place: cell_centre(position),
            position,
            energy: None,
            breeding_threshold: None,
            can_breed: false,
            diet: Diet::nothing(),
            edible: Some(Edible { nutrition: PLANT_NUTRITION }),
            vision: None,
            behavior: None,
            motion: None,
            traits: None,
        },
        _ => Agent {
            kind,
            place: cell_centre(position),
            position,
            energy: Some(Energy::new(JUVENILE_ENERGY, MAX_ENERGY, config.drain_rate as u64)),
            breeding_threshold: Some(config.breeding_threshold as u64),
            can_breed: false,
            diet: match kind {
                EntityKind::Prey => Diet::only(EntityKind::Plant),
                _ => Diet::only(EntityKind::Prey),
            },
            edible: match kind {
                EntityKind::Prey => Some(Edible { nutrition: PREY_NUTRITION }),
                _ => None,
            },
            vision: Some(Vision { range: config.vision_range as u32 }),
            behavior: Some(MotionBehavior::Wander),
            motion: Some(Motion { direction: 0, speed: JUVENILE_SPEED }),
            traits: Some(
                match traits {
                    Some(t) => t,
                    None => Traits {
                        max_speed: config.max_speed as u32,
                        turn_speed: config.turn_speed as u32,
                    },
                },
            ),
        },
    }
}

/// Adds a new agent of `kind` at `position` and returns its id.
pub fn spawn_kind(
    world: &mut World,
    config: &Config,
    kind: EntityKind,
    position: Position,
    traits: Option<Traits>,
) -> (id: u64)
    requires
        old(world).wf(),
        config.valid(),
    ensures
        final(world).wf(),
        id == old(world)@.len(),
        final(world)@ == old(world)@.push(Some(newborn(*config, kind, position, traits))),
        final(world).seen() == old(world).seen().push(Seq::empty()),
{
    world.spawn(juvenile(config, kind, position, traits)).unwrap()
}

/// Adds a new predator at `position`, with `traits` if given.
pub fn spawn_predator(
    world: &mut World,
    config: &Config,
    position: Position,
    traits: Option<Traits>,
) -> (id: u64)
    requires
        old(world).wf(),
        config.valid(),
    ensures
        final(world).wf(),
        id == old(world)@.len(),
        final(world)@ == old(world)@.push(Some(newborn(*config, EntityKind::Predator, position, traits))),
        final(world).seen() == old(world).seen().push(Seq::empty()),
{
    spawn_kind(world, config, EntityKind::Predator, position, traits)
}

/// Adds a new prey animal at `position`, with `traits` if given.
pub fn spawn_prey(
    world: &mut World,
    config: &Config,
    position: Position,
    traits: Option<Traits>,
) -> (id: u64)
    requires
        old(world).wf(),
        config.valid(),
    ensures
        final(world).wf(),
        id == old(world)@.len(),
        final(world)@ == old(world)@.push(Some(newborn(*config, EntityKind::Prey, position, traits))),
        final(world).seen() == old(world).seen().push(Seq::empty()),
{
    spawn_kind(world, config, EntityKind::Prey, position, traits)
}

/// Adds a new plant at `position`.
pub fn spawn_plant(world: &mut World, config: &Config, position: Position) -> (id: u64)
    requires
        old(world).wf(),
        config.valid(),
    ensures
        final(world).wf(),
        id == old(world)@.len(),
        final(world)@ == old(world)@.push(Some(newborn(*config, EntityKind::Plant, position, None))),
        final(world).seen() == old(world).seen().push(Seq::empty()),
{
    spawn_kind(world, config, EntityKind::Plant, position, None)
}

/// Half the side of the square in which agents are seeded, in the units of
/// a world position.
pub const SPAWN_AREA_SIZE: i32 = 500_000;

/// Number of plants with which a simulation starts.
pub const INITIAL_PLANTS: u32 = 10;

/// Number of prey animals with which a simulation starts.
pub const INITIAL_PREY: u32 = 100;

/// The largest half extent, in cells, of a region that can be seeded.
pub const MAX_HALF_EXTENT: u32 = 0x3fff_ffff;

/// The coordinate that a roll stands for where coordinates run from `half`
/// below zero to `half` above: the roll less `half`, held within the range
/// of a coordinate.
pub open spec fn centred(roll: u32, half: u32) -> int {
    if roll - half > i32::MAX {
        i32::MAX as int
    } else if roll - half < i32::MIN {
        i32::MIN as int
    } else {
        roll - half
    }
}

/// Turns a roll into a coordinate about zero. A roll below twice `half`
/// gives a coordinate from `-half` up to, but not including, `half`.
pub fn centre_roll(roll: u32, half: u32) -> (c: i32)
    ensures
        c == centred(roll, half),
        roll < 2 * half && half <= 0x4000_0000 ==> c == roll - half && -half <= c < half,
{
    let d: i64 = roll as i64 - half as i64;
    if d > i32::MAX as i64 {
        i32::MAX
    } else if d < i32::MIN as i64 {
        i32::MIN
    } else {
        d as i32
    }
}

/// A world position within the seeding square, drawn from the thread's
/// random generator.
pub fn random_position() -> (p: Point)
    ensures
        -SPAWN_AREA_SIZE <= p.x < SPAWN_AREA_SIZE,
        -SPAWN_AREA_SIZE <= p.y < SPAWN_AREA_SIZE,
{
    let x: u32 = roll(2 * (SPAWN_AREA_SIZE as u32));
    let y: u32 = roll(2 * (SPAWN_AREA_SIZE as u32));
    Point { x: centre_roll(x, SPAWN_AREA_SIZE as u32), y: centre_roll(y, SPAWN_AREA_SIZE as u32) }
}

/// Whether `cell` lies in the region of `half_width` cells to either side
/// of the origin and `half_height` cells above and below it.
pub open spec fn in_region(cell: Position, half_width: u32, half_height: u32) -> bool {
    &&& -half_width <= cell.x < half_width
    &&& -half_height <= cell.y < half_height
}

/// A cell of the region, drawn from the thread's random generator.
pub fn random_cell(half_width: u32, half_height: u32) -> (cell: Position)
    requires
        0 < half_width <= MAX_HALF_EXTENT,
        0 < half_height <= MAX_HALF_EXTENT,
    ensures
        in_region(cell, half_width, half_height),
{
    let x: u32 = roll(2 * half_width);
    let y: u32 = roll(2 * half_height);
    Position { x: centre_roll(x, half_width), y: centre_roll(y, half_height) }
}

/// The agents of `kind` that stand, newly created, at each of `cells`.
pub open spec fn newborns(config: Config, kind: EntityKind, cells: Seq<Position>) -> Seq<
    Option<Agent>,
> {
    Seq::new(cells.len(), |i: int| Some(newborn(config, kind, cells[i], None)))
}

/// Adds one new agent of `kind` at each of `cells`, in order, and returns
/// their ids.
pub fn spawn_all(
    world: &mut World,
    config: &Config,
    kind: EntityKind,
    cells: &Vec<Position>,
) -> (ids: Vec<u64>)
    requires
        old(world).wf(),
        config.valid(),
    ensures
        final(world).wf(),
        ids@.len() == cells@.len(),
        final(world)@ == old(world)@ + newborns(*config, kind, cells@),
        forall|k: int| 0 <= k < ids@.len() ==> #[trigger] ids@[k] == old(world)@.len() + k,
        final(world).seen() == old(world).seen() + Seq::new(
            cells@.len(),
            |k: int| Seq::<Sighting>::empty(),
        ),
{
    let mut ids: Vec<u64> = Vec::new();
    let mut i: usize = 0;
    while i < cells.len()
        invariant
            i <= cells@.len(),
            world.wf(),
            config.valid(),
            ids@.len() == i,
            world@ == old(world)@ + newborns(*config, kind, cells@.take(i as int)),
            forall|k: int| 0 <= k < ids@.len() ==> #[trigger] ids@[k] == old(world)@.len() + k,
            world.seen() == old(world).seen() + Seq::new(i as nat, |k: int| Seq::<Sighting>::empty()),
        decreases cells@.len() - i,
    {
        let id = spawn_kind(world, config, kind, cells[i], None);
        ids.push(id);
        i = i + 1;
    }
    proof {
        assert(cells@.take(cells@.len() as int) =~= cells@);
    }
    ids
}

/// Adds a plant at each of `cells` and returns their ids.
pub fn handle_plant_spawn(world: &mut World, config: &Config, cells: &Vec<Position>) -> (ids: Vec<u64>)
    requires
        old(world).wf(),
        config.valid(),
    ensures
        final(world).wf(),
        ids@.len() == cells@.len(),
        final(world)@ == old(world)@ + newborns(*config, EntityKind::Plant, cells@),
        forall|k: int| 0 <= k < ids@.len() ==> #[trigger] ids@[k] == old(world)@.len() + k,
{
    spawn_all(world, config, EntityKind::Plant, cells)
}

/// Adds a prey animal at each of `cells` and returns their ids.
pub fn handle_prey_spawn(world: &mut World, config: &Config, cells: &Vec<Position>) -> (ids: Vec<u64>)
    requires
        old(world).wf(),
        config.valid(),
    ensures
        final(world).wf(),
        ids@.len() == cells@.len(),
        final(world)@ == old(world)@ + newborns(*config, EntityKind::Prey, cells@),
        forall|k: int| 0 <= k < ids@.len() ==> #[trigger] ids@[k] == old(world)@.len() + k,
{
    spawn_all(world, config, EntityKind::Prey, cells)
}

/// Draws `count` cells of the region from the thread's random generator.
pub fn random_cells(count: u32, half_width: u32, half_height: u32) -> (cells: Vec<Position>)
    requires
        0 < half_width <= MAX_HALF_EXTENT,
        0 < half_height <= MAX_HALF_EXTENT,
    ensures
        cells@.len() == count,
        forall|k: int| 0 <= k < cells@.len() ==> in_region(#[trigger] cells@[k], half_width, half_height),
{
    let mut cells: Vec<Position> = Vec::new();
    let mut i: u32 = 0;
    while i < count
        invariant
            i <= count,
            cells@.len() == i,
            0 < half_width <= MAX_HALF_EXTENT,
            0 < half_height <= MAX_HALF_EXTENT,
            forall|k: int|
                0 <= k < cells@.len() ==> in_region(#[trigger] cells@[k], half_width, half_height),
        decreases count - i,
    {
        cells.push(random_cell(half_width, half_height));
        i = i + 1;
    }
    cells
}

/// Seeds the world with the initial plants and then the initial prey, each
/// at a cell of the region drawn at random. Returns the cells of the
/// plants and of the prey.
pub fn setup_simulation(
    world: &mut World,
    config: &Config,
    half_width: u32,
    half_height: u32,
) -> (seeded: (Vec<Position>, Vec<Position>))
    requires
        old(world).wf(),
        config.valid(),
        0 < half_width <= MAX_HALF_EXTENT,
        0 < half_height <= MAX_HALF_EXTENT,
    ensures
        final(world).wf(),
        seeded.0@.len() == INITIAL_PLANTS,
        seeded.1@.len() == INITIAL_PREY,
        forall|k: int|
            0 <= k < seeded.0@.len() ==> in_region(#[trigger] seeded.0@[k], half_width, half_height),
        forall|k: int|
            0 <= k < seeded.1@.len() ==> in_region(#[trigger] seeded.1@[k], half_width, half_height),
        final(world)@ == old(world)@ + newborns(*config, EntityKind::Plant, seeded.0@) + newborns(
            *config,
            EntityKind::Prey,
            seeded.1@,
        ),
{
    let plants = random_cells(INITIAL_PLANTS, half_width, half_height);
    let prey = random_cells(INITIAL_PREY, half_width, half_height);
    handle_plant_spawn(world, config, &plants);
    handle_prey_spawn(world, config, &prey);
    (plants, prey)
}

} // verus!
