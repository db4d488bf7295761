//! Decisions: what each agent intends to do about what it sees, and how an
//! intent becomes a way of moving.

use crate::entities::{Agent, Diet, EntityKind, MotionBehavior, Sighting};
use crate::world::{alive_in, all_wf, World};
use vstd::prelude::*;

verus! {

/// What an agent has decided to do. The first id is the agent's own.
#[derive(Clone, Copy, Debug, PartialEq, Eq, Structural)]
pub enum IntentEvent {
    /// Go and eat the second agent.
    Eat(u64, u64),
    /// Nothing in sight: roam.
    Explore(u64),
    /// Get away from the second agent.
    Escape(u64, u64),
    /// Go to the second agent to breed.
    Mate(u64, u64),
}

/// The first index from `i` on at which `list` holds an agent of kind
/// `kind`; the length of the list if there is none.
pub open spec fn first_of_kind(list: Seq<Sighting>, kind: EntityKind, i: int) -> int
    decreases list.len() - i,
{
    if i < 0 || i >= list.len() {
        list.len() as int
    } else if list[i].kind == kind {
        i
    } else {
        first_of_kind(list, kind, i + 1)
    }
}

/// The first index from `i` on at which `list` holds an agent whose kind is
/// in `diet`; the length of the list if there is none.
pub open spec fn first_food(list: Seq<Sighting>, diet: Diet, i: int) -> int
    decreases list.len() - i,
{
    if i < 0 || i >= list.len() {
        list.len() as int
    } else if diet.includes(list[i].kind) {
        i
    } else {
        first_food(list, diet, i + 1)
    }
}

/// What an agent intends, given what it sees: to join the nearest agent of
/// its own kind if it may breed and sees one; else to eat the nearest agent
/// that is in its diet; else to roam.
pub open spec fn decided(
    me: u64,
    kind: EntityKind,
    diet: Diet,
    can_breed: bool,
    seen: Seq<Sighting>,
) -> IntentEvent {
    let mate = first_of_kind(seen, kind, 0);
    let food = first_food(seen, diet, 0);
    if can_breed && mate < seen.len() {
        IntentEvent::Mate(me, seen[mate].id)
    } else if food < seen.len() {
        IntentEvent::Eat(me, seen[food].id)
    } else {
        IntentEvent::Explore(me)
    }
}

/// The first agent of a kind in a list is where the search says: no entry
/// before it is of that kind, and it is of that kind unless the list holds
/// none.
pub proof fn lemma_first_of_kind(list: Seq<Sighting>, kind: EntityKind, i: int)
    requires
        0 <= i <= list.len(),
    ensures
        i <= first_of_kind(list, kind, i) <= list.len(),
        first_of_kind(list, kind, i) < list.len() ==> list[first_of_kind(list, kind, i)].kind == kind,
        forall|j: int| i <= j < first_of_kind(list, kind, i) ==> list[j].kind != kind,
    decreases list.len() - i,
{
    if i < list.len() && list[i].kind != kind {
        lemma_first_of_kind(list, kind, i + 1);
    }
}

/// The first food in a list is where the search says: no entry before it is
/// in the diet, and it is in the diet unless the list holds none.
pub proof fn lemma_first_food(list: Seq<Sighting>, diet: Diet, i: int)
    requires
        0 <= i <= list.len(),
    ensures
        i <= first_food(list, diet, i) <= list.len(),
        first_food(list, diet, i) < list.len() ==> diet.includes(
            list[first_food(list, diet, i)].kind,
        ),
        forall|j: int| i <= j < first_food(list, diet, i) ==> !diet.includes(list[j].kind),
    decreases list.len() - i,
{
    if i < list.len() && !diet.includes(list[i].kind) {
        lemma_first_food(list, diet, i + 1);
    }
}

/// Decides what the agent `me`, of kind `kind` and with diet `diet`, intends
/// to do about what it sees. Mating comes before eating, eating before
/// roaming.
pub fn decide(
    me: u64,
    kind: EntityKind,
    diet: &Diet,
    can_breed: bool,
    seen: &Vec<Sighting>,
) -> (intent: IntentEvent)
    ensures
        intent == decided(me, kind, *diet, can_breed, seen@),
{
    let n: usize = seen.len();
    if can_breed {
        let mut i: usize = 0;
        while i < n
            invariant
                i <= n,
                n == seen@.len(),
                can_breed,
                first_of_kind(seen@, kind, 0) == first_of_kind(seen@, kind, i as int),
            decreases n - i,
        {
            if seen[i].kind == kind {
                return IntentEvent::Mate(me, seen[i].id);
            }
            i = i + 1;
        }
    }
    let mut i: usize = 0;
    while i < n
        invariant
            i <= n,
            n == seen@.len(),
            !(can_breed && first_of_kind(seen@, kind, 0) < seen@.len()),
            first_food(seen@, *diet, 0) == first_food(seen@, *diet, i as int),
        decreases n - i,
    {
        if diet.eats(seen[i].kind) {
            return IntentEvent::Eat(me, seen[i].id);
        }
        i = i + 1;
    }
    IntentEvent::Explore(me)
}

/// Whether an agent takes decisions: it has a way of moving and it has
/// vision.
pub open spec fn decides(a: Agent) -> bool {
    a.behavior is Some && a.vision is Some
}

/// The intents of the deciding agents among the first `n` slots, in the
/// order of their ids, where `seen` holds what each agent sees.
pub open spec fn intents_of(agents: Seq<Option<Agent>>, seen: Seq<Seq<Sighting>>, n: int) -> Seq<
    IntentEvent,
>
    decreases n,
{
    if n <= 0 {
        Seq::empty()
    } else {
        let rest = intents_of(agents, seen, n - 1);
        match agents[n - 1] {
            Some(a) => if decides(a) {
                rest.push(decided((n - 1) as u64, a.kind, a.diet, a.can_breed, seen[n - 1]))
            } else {
                rest
            },
            None => rest,
        }
    }
}

/// Has every deciding agent decide on what it sees, and returns the intents
/// in the order of the agents' ids.
pub fn animal_behaviour_system(world: &World) -> (intents: Vec<IntentEvent>)
    requires
        world.wf(),
    ensures
        intents@ == intents_of(world@, world.seen(), world@.len() as int),
{
    let mut intents: Vec<IntentEvent> = Vec::new();
    let n: usize = world.len();
    let mut i: usize = 0;
    while i < n
        invariant
            i <= n,
            n == world@.len(),
            n <= u64::MAX,
            world.wf(),
            intents@ == intents_of(world@, world.seen(), i as int),
        decreases n - i,
    {
        match world.get(i as u64) {
            Some(agent) => {
                if agent.behavior.is_some() && agent.vision.is_some() {
                    let intent = decide(
                        i as u64,
                        agent.kind,
                        &agent.diet,
                        agent.can_breed,
                        world.sightings(i as u64),
                    );
                    intents.push(intent);
                }
            },
            None => {},
        }
        i = i + 1;
    }
    intents
}

/// The way of moving that an intent asks for, and of whom.
pub open spec fn behavior_for(intent: IntentEvent) -> (u64, MotionBehavior) {
    match intent {
        IntentEvent::Eat(me, target) => (me, MotionBehavior::Seek { target }),
        IntentEvent::Mate(me, target) => (me, MotionBehavior::Seek { target }),
        IntentEvent::Explore(me) => (me, MotionBehavior::Wander),
        IntentEvent::Escape(me, threat) => (me, MotionBehavior::Evade { target: threat }),
    }
}

/// The agents after one intent is applied: its agent moves as the intent
/// asks. An intent of an agent that is dead, or that has no way of moving,
/// changes nothing.
pub open spec fn after_intent(
    agents: Seq<Option<Agent>>,
    intent: IntentEvent,
) -> Seq<Option<Agent>> {
    let (me, behavior) = behavior_for(intent);
    if alive_in(agents, me) && agents[me as int]->0.behavior is Some {
        agents.update(me as int, Some(Agent { behavior: Some(behavior), ..agents[me as int]->0 }))
    } else {
        agents
    }
}

/// The agents after the first `n` intents are applied, in order.
pub open spec fn after_intents(
    agents: Seq<Option<Agent>>,
    intents: Seq<IntentEvent>,
    n: int,
) -> Seq<Option<Agent>>
    decreases n,
{
    if n <= 0 {
        agents
    } else {
        after_intent(after_intents(agents, intents, n - 1), intents[n - 1])
    }
}

/// The way of moving that an intent asks for, and of whom.
pub fn resolve_intent(intent: IntentEvent) -> (r: (u64, MotionBehavior))
    ensures
        r == behavior_for(intent),
{
    match intent {
        IntentEvent::Eat(me, target) => (me, MotionBehavior::Seek { target }),
        IntentEvent::Mate(me, target) => (me, MotionBehavior::Seek { target }),
        IntentEvent::Explore(me) => (me, MotionBehavior::Wander),
        IntentEvent::Escape(me, threat) => (me, MotionBehavior::Evade { target: threat }),
    }
}

/// Applies the intents in the order in which they were emitted: each sets
/// its agent's way of moving. An intent of an agent that has died is
/// dropped.
pub fn handle_intent_system(world: &mut World, intents: &Vec<IntentEvent>)
    requires
        old(world).wf(),
    ensures
        final(world).wf(),
        final(world)@ == after_intents(old(world)@, intents@, intents@.len() as int),
        final(world).seen() == old(world).seen(),
{
    let n: usize = intents.len();
    let mut i: usize = 0;
    while i < n
        invariant
            i <= n,
            n == intents@.len(),
            world.wf(),
            world.seen() == old(world).seen(),
            world@ == after_intents(old(world)@, intents@, i as int),
        decreases n - i,
    {
        let (me, behavior) = resolve_intent(intents[i]);
        let moves: bool = match world.get(me) {
            Some(agent) => agent.behavior.is_some(),
            None => false,
        };
        if moves {
            let agent = world.agent_mut(me);
            agent.behavior = Some(behavior);
        }
        i = i + 1;
    }
}

/// Applying intents keeps every agent's energy within its capacity.
pub proof fn lemma_intents_keep_wf(agents: Seq<Option<Agent>>, intents: Seq<IntentEvent>, n: int)
    requires
        all_wf(agents),
    ensures
        all_wf(after_intents(agents, intents, n)),
    decreases n,
{
    if n > 0 {
        lemma_intents_keep_wf(agents, intents, n - 1);
    }
}

} // verus!
