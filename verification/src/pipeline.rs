//! The tick: the stages of the simulation in their fixed order. Between
//! deciding and resolving, the host moves the agents.

use crate::collision::{
    after_breedings, after_collisions, breedings, check_collisions, collisions_of,
    handle_breeding, handle_collisions, lemma_breedings_keep_wf, lemma_collisions_keep_wf,
};
use crate::config::{Config, ConfigError};
use crate::decision::{
    after_intents, animal_behaviour_system, handle_intent_system, intents_of,
    lemma_intents_keep_wf,
};
use crate::entities::{Agent, EntityKind, Sighting};
use crate::geometry::Position;
use crate::growth::{
    capped_chance, growth_of, grows_into, plant_growth, plant_growth_on, rolls_for_all,
    valid_growth, Rolls,
};
use crate::metabolism::{
    energy_drain, lists_deaths, manage_breed_status, slot_after_drain, slot_with_breed_status,
};
use crate::movement::{
    move_agents, movement_system, moves_of, plan_moves, planned, plans, Steering, WanderRolls,
};
use crate::spawn::{newborns, spawn_all};
use crate::vision::{perceived, vision_system};
use crate::world::{all_wf, World};
use vstd::prelude::*;

verus! {

/// The agents with every breeding mark set anew.
pub open spec fn marked(agents: Seq<Option<Agent>>) -> Seq<Option<Agent>> {
    Seq::new(agents.len(), |i: int| slot_with_breed_status(agents[i]))
}

/// What every agent sees, one list per id.
pub open spec fn all_perceived(agents: Seq<Option<Agent>>) -> Seq<Seq<Sighting>> {
    Seq::new(agents.len(), |i: int| perceived(agents, i, agents.len() as int))
}

/// The agents after a tick of `dt_ms` milliseconds has drained them.
pub open spec fn drained_all(agents: Seq<Option<Agent>>, dt_ms: u64) -> Seq<Option<Agent>> {
    Seq::new(agents.len(), |i: int| slot_after_drain(agents[i], dt_ms))
}

/// The agents after the deciding half of a tick: breeding marks are set
/// anew, every agent looks around, decides, and takes up the way of moving
/// that its intent asks for.
pub open spec fn decided_world(agents: Seq<Option<Agent>>) -> Seq<Option<Agent>> {
    let m = marked(agents);
    let intents = intents_of(m, all_perceived(m), m.len() as int);
    after_intents(m, intents, intents.len() as int)
}

/// The first half of a tick: breeding marks, perception, decisions and
/// their intents, in this order. Returns for every moving agent what it
/// does about its heading, for the host to carry out.
pub fn tick_decide(world: &mut World) -> (plan: Vec<(u64, Steering)>)
    requires
        old(world).wf(),
    ensures
        final(world).wf(),
        final(world)@ == decided_world(old(world)@),
        final(world).seen() == all_perceived(marked(old(world)@)),
        plans(final(world)@, plan@),
{
    manage_breed_status(world);
    assert(world@ =~= marked(old(world)@));
    vision_system(world);
    assert(world.seen() =~= all_perceived(marked(old(world)@)));
    let intents = animal_behaviour_system(world);
    handle_intent_system(world, &intents);
    movement_system(world)
}

/// The first half of a tick on given rolls: as `tick_decide`, where the
/// agent under the id `k` roams on `rolls[k]`.
pub fn tick_decide_on(world: &mut World, rolls: &Vec<WanderRolls>) -> (plan: Vec<(u64, Steering)>)
    requires
        old(world).wf(),
    ensures
        final(world).wf(),
        final(world)@ == decided_world(old(world)@),
        final(world).seen() == all_perceived(marked(old(world)@)),
        plan@ == planned(final(world)@, rolls@, final(world)@.len() as int),
{
    manage_breed_status(world);
    assert(world@ =~= marked(old(world)@));
    vision_system(world);
    assert(world.seen() =~= all_perceived(marked(old(world)@)));
    let intents = animal_behaviour_system(world);
    handle_intent_system(world, &intents);
    plan_moves(world, rolls)
}

/// What the second half of a tick did: the ids of the newborn and of the
/// starved, each in rising order.
pub struct TickReport {
    pub born: Vec<u64>,
    pub starved: Vec<u64>,
}

/// The agents after the collisions of a tick are found and resolved and
/// the breedings that they lead to are worked off under `config`.
pub open spec fn resolved_world(agents: Seq<Option<Agent>>, config: Config) -> Seq<Option<Agent>> {
    let hits = collisions_of(agents, agents.len() as int);
    let fed = after_collisions(agents, hits, hits.len() as int);
    let pairs = breedings(agents, hits, hits.len() as int);
    after_breedings(fed, pairs, config, pairs.len() as int)
}

/// The second half of a tick, after the agents have moved: collisions are
/// found and resolved, the pairs that breed pay the breeding cost of
/// `config` each and have their offspring, and every agent's energy drains
/// for `dt_ms` milliseconds, at the end of which the starved are gone.
pub fn tick_resolve(world: &mut World, config: &Config, dt_ms: u64) -> (report: TickReport)
    requires
        old(world).wf(),
        config.valid(),
    ensures
        final(world).wf(),
        final(world)@ == drained_all(resolved_world(old(world)@, *config), dt_ms),
        report.born@.len() == final(world)@.len() - old(world)@.len(),
        forall|k: int|
            0 <= k < report.born@.len() ==> #[trigger] report.born@[k] == old(world)@.len() + k,
        lists_deaths(
            report.starved@,
            resolved_world(old(world)@, *config),
            final(world)@,
            final(world)@.len() as int,
        ),
{
    let hits = check_collisions(world);
    let pairs = handle_collisions(world, &hits);
    let born = handle_breeding(world, &pairs, config);
    let starved = energy_drain(world, dt_ms);
    TickReport { born, starved }
}

/// The cells of the living plants among the first `n` slots, in the order
/// of their ids.
pub open spec fn plant_cells(agents: Seq<Option<Agent>>, n: int) -> Seq<Position>
    decreases n,
{
    if n <= 0 {
        Seq::empty()
    } else {
        let rest = plant_cells(agents, n - 1);
        match agents[n - 1] {
            Some(a) => if a.kind == EntityKind::Plant {
                rest.push(a.position)
            } else {
                rest
            },
            None => rest,
        }
    }
}

/// The cells of the living plants, in the order of their ids.
pub fn plant_positions(world: &World) -> (cells: Vec<Position>)
    requires
        world.wf(),
    ensures
        cells@ == plant_cells(world@, world@.len() as int),
{
    let mut cells: Vec<Position> = Vec::new();
    let n: usize = world.len();
    let mut i: usize = 0;
    while i < n
        invariant
            i <= n,
            n == world@.len(),
            n <= u64::MAX,
            cells@ == plant_cells(world@, i as int),
        decreases n - i,
    {
        match world.get(i as u64) {
            Some(a) => {
                if a.kind == EntityKind::Plant {
                    cells.push(a.position);
                }
            },
            None => {},
        }
        i = i + 1;
    }
    cells
}

/// The growth of a tick: the plants spread as `plant_growth` has it at the
/// growth rate and cardinal weight of `config`, and a new plant is added
/// for every sprout, in order. Returns the cells of the new plants. No new
/// plant stands on a plant that was there before, and no two stand in the
/// same cell.
pub fn tick_grow(world: &mut World, config: &Config, dt_ms: u64) -> (sprouts: Vec<Position>)
    requires
        old(world).wf(),
        config.valid(),
    ensures
        final(world).wf(),
        grows_into(
            plant_cells(old(world)@, old(world)@.len() as int),
            capped_chance(config.growth_rate as int, dt_ms as int),
            config.cardinal_weight as u32,
            sprouts@,
        ),
        valid_growth(plant_cells(old(world)@, old(world)@.len() as int), sprouts@),
        final(world)@ == old(world)@ + newborns(*config, EntityKind::Plant, sprouts@),
{
    let plants = plant_positions(world);
    let sprouts = plant_growth(
        &plants,
        config.growth_rate as u32,
        config.cardinal_weight as u32,
        dt_ms,
    );
    spawn_all(world, config, EntityKind::Plant, &sprouts);
    sprouts
}

/// The growth of a tick on given rolls: as `tick_grow`, where the plants
/// spread as `plant_growth_on` has it, the living plant that is `k`-th by
/// id on `rolls[k]`.
pub fn tick_grow_on(
    world: &mut World,
    config: &Config,
    dt_ms: u64,
    rolls: &Vec<Rolls>,
) -> (sprouts: Vec<Position>)
    requires
        old(world).wf(),
        config.valid(),
    ensures
        final(world).wf(),
        sprouts@ == growth_of(
            plant_cells(old(world)@, old(world)@.len() as int),
            capped_chance(config.growth_rate as int, dt_ms as int),
            config.cardinal_weight as u32,
            rolls_for_all(rolls@, plant_cells(old(world)@, old(world)@.len() as int).len() as int),
            plant_cells(old(world)@, old(world)@.len() as int).len() as int,
        ),
        valid_growth(plant_cells(old(world)@, old(world)@.len() as int), sprouts@),
        final(world)@ == old(world)@ + newborns(*config, EntityKind::Plant, sprouts@),
{
    let plants = plant_positions(world);
    let sprouts = plant_growth_on(
        &plants,
        config.growth_rate as u32,
        config.cardinal_weight as u32,
        dt_ms,
        rolls,
    );
    spawn_all(world, config, EntityKind::Plant, &sprouts);
    sprouts
}

/// Whether `sprouts` and `after` are what the acting half of a tick makes
/// of the world `before`, with `report` as its report: collisions are
/// resolved and the breedings worked off, energy drains and the starved
/// die, and the plants spread into `sprouts`.
pub open spec fn acted(
    before: Seq<Option<Agent>>,
    config: Config,
    dt_ms: u64,
    born: Seq<u64>,
    starved: Seq<u64>,
    sprouts: Seq<Position>,
    after: Seq<Option<Agent>>,
) -> bool {
    let resolved = resolved_world(before, config);
    let settled = drained_all(resolved, dt_ms);
    &&& lists_deaths(starved, resolved, settled, settled.len() as int)
    &&& born.len() == settled.len() - before.len()
    &&& forall|k: int| 0 <= k < born.len() ==> #[trigger] born[k] == before.len() + k
    &&& grows_into(
        plant_cells(settled, settled.len() as int),
        capped_chance(config.growth_rate as int, dt_ms as int),
        config.cardinal_weight as u32,
        sprouts,
    )
    &&& after == settled + newborns(config, EntityKind::Plant, sprouts)
}

/// The acting half of a tick: `tick_resolve`, then `tick_grow`. A
/// configuration that is not valid is turned down with its first fault, and
/// the world stays as it is.
pub fn tick_act(world: &mut World, config: &Config, dt_ms: u64) -> (done: Result<
    (TickReport, Vec<Position>),
    ConfigError,
>)
    requires
        old(world).wf(),
    ensures
        final(world).wf(),
        done is Ok <==> config.valid(),
        done matches Err(e) ==> config.fault() == Some(e),
        done is Err ==> final(world)@ == old(world)@,
        done is Err ==> final(world).seen() == old(world).seen(),
        done matches Ok(out) ==> acted(
            old(world)@,
            *config,
            dt_ms,
            out.0.born@,
            out.0.starved@,
            out.1@,
            final(world)@,
        ),
{
    match config.validate() {
        Err(e) => Err(e),
        Ok(()) => {
            let report = tick_resolve(world, config, dt_ms);
            let sprouts = tick_grow(world, config, dt_ms);
            Ok((report, sprouts))
        },
    }
}

/// No half of a tick takes an agent's energy out of bounds: where every
/// agent's energy is within its capacity before, it is so after deciding,
/// and after resolving and draining.
pub proof fn lemma_tick_keeps_energy_bounded(agents: Seq<Option<Agent>>, config: Config, dt_ms: u64)
    requires
        all_wf(agents),
    ensures
        all_wf(decided_world(agents)),
        all_wf(drained_all(resolved_world(agents, config), dt_ms)),
{
    let m = marked(agents);
    assert(all_wf(m)) by {
        assert forall|i: int| 0 <= i < m.len() implies (#[trigger] m[i] matches Some(a) ==> a.wf()) by {
            assert(agents[i] matches Some(a) ==> a.wf());
        }
    }
    let intents = intents_of(m, all_perceived(m), m.len() as int);
    lemma_intents_keep_wf(m, intents, intents.len() as int);
    let hits = collisions_of(agents, agents.len() as int);
    lemma_collisions_keep_wf(agents, hits, hits.len() as int);
    let fed = after_collisions(agents, hits, hits.len() as int);
    let pairs = breedings(agents, hits, hits.len() as int);
    lemma_breedings_keep_wf(fed, pairs, config, pairs.len() as int);
    let resolved = resolved_world(agents, config);
    let drained = drained_all(resolved, dt_ms);
    assert forall|i: int| 0 <= i < drained.len() implies (#[trigger] drained[i] matches Some(a)
        ==> a.wf()) by {
        assert(resolved[i] matches Some(a) ==> a.wf());
    }
}

/// The acting half of a tick on given rolls: `tick_resolve`, then
/// `tick_grow_on`. A configuration that is not valid is turned down with
/// its first fault, and the world stays as it is.
pub fn tick_act_on(
    world: &mut World,
    config: &Config,
    dt_ms: u64,
    rolls: &Vec<Rolls>,
) -> (done: Result<(TickReport, Vec<Position>), ConfigError>)
    requires
        old(world).wf(),
    ensures
        final(world).wf(),
        done is Ok <==> config.valid(),
        done matches Err(e) ==> config.fault() == Some(e),
        done is Err ==> final(world)@ == old(world)@,
        done is Err ==> final(world).seen() == old(world).seen(),
        done matches Ok(out) ==> {
            let resolved = resolved_world(old(world)@, *config);
            let settled = drained_all(resolved, dt_ms);
            let plants = plant_cells(settled, settled.len() as int);
            &&& lists_deaths(out.0.starved@, resolved, settled, settled.len() as int)
            &&& out.0.born@.len() == settled.len() - old(world)@.len()
            &&& forall|k: int|
                0 <= k < out.0.born@.len() ==> #[trigger] out.0.born@[k] == old(world)@.len() + k
            &&& out.1@ == growth_of(
                plants,
                capped_chance(config.growth_rate as int, dt_ms as int),
                config.cardinal_weight as u32,
                rolls_for_all(rolls@, plants.len() as int),
                plants.len() as int,
            )
            &&& final(world)@ == settled + newborns(*config, EntityKind::Plant, out.1@)
        },
{
    match config.validate() {
        Err(e) => Err(e),
        Ok(()) => {
            let report = tick_resolve(world, config, dt_ms);
            let sprouts = tick_grow_on(world, config, dt_ms, rolls);
            Ok((report, sprouts))
        },
    }
}

/// One tick of the simulation, its stages in their fixed order: breeding
/// marks, perception, decisions and their intents; the motion of every
/// agent that moves; collisions with their meals and breedings; the drain
/// of energy and the death of the starved; the growth of the plants. The
/// host lends its trigonometry: `bearing_of` takes a direction to its
/// heading, `trig_of` a heading to its cosine and sine in thousandths. A
/// configuration that is not valid is turned down with its first fault
/// before anything is done.
pub fn tick<B: Fn(i64, i64) -> i32, T: Fn(i32) -> (i32, i32)>(
    world: &mut World,
    config: &Config,
    bearing_of: &B,
    trig_of: &T,
    dt_ms: u64,
) -> (done: Result<(TickReport, Vec<Position>), ConfigError>)
    requires
        old(world).wf(),
        forall|dx: i64, dy: i64| call_requires(*bearing_of, (dx, dy)),
        forall|h: i32| call_requires(*trig_of, (h,)),
    ensures
        final(world).wf(),
        done is Ok <==> config.valid(),
        done matches Err(e) ==> config.fault() == Some(e),
        done is Err ==> final(world)@ == old(world)@,
        done is Err ==> final(world).seen() == old(world).seen(),
        done matches Ok(out) ==> exists|plan: Seq<(u64, Steering)>, moved: Seq<Option<Agent>>|
            {
                &&& plans(decided_world(old(world)@), plan)
                &&& #[trigger] moves_of(
                    bearing_of,
                    trig_of,
                    decided_world(old(world)@),
                    plan,
                    plan.len() as int,
                    dt_ms,
                    moved,
                )
                &&& acted(moved, *config, dt_ms, out.0.born@, out.0.starved@, out.1@, final(world)@)
            },
{
    match config.validate() {
        Err(e) => Err(e),
        Ok(()) => {
            let plan = tick_decide(world);
            move_agents(world, &plan, bearing_of, trig_of, dt_ms);
            let ghost moved = world@;
            let report = tick_resolve(world, config, dt_ms);
            let sprouts = tick_grow(world, config, dt_ms);
            proof {
                assert(moves_of(
                    bearing_of,
                    trig_of,
                    decided_world(old(world)@),
                    plan@,
                    plan@.len() as int,
                    dt_ms,
                    moved,
                ));
                assert(acted(moved, *config, dt_ms, report.born@, report.starved@, sprouts@, world@));
            }
            Ok((report, sprouts))
        },
    }
}

} // verus!
