use ecosim::config::Config;
use ecosim::collision::{
    breed, check_collisions, eat, handle_breeding, handle_collisions, resolve_collision,
    BreedEvent, CollisionEvent, Outcome,
};
use ecosim::energy::Energy;
use ecosim::entities::{Agent, Edible, EntityKind, MotionBehavior};
use ecosim::geometry::Position;
use ecosim::spawn::juvenile;
use ecosim::world::World;

fn alter(w: &mut World, id: u64, change: impl FnOnce(&mut Agent)) {
    let mut a = *w.get(id).unwrap();
    change(&mut a);
    assert!(w.replace(id, a));
}

fn at(kind: EntityKind, x: i32, y: i32) -> Agent {
    juvenile(&Config::standard(), kind, Position { x, y }, None)
}

fn energy_of(w: &World, id: u64) -> u64 {
    w.get(id).unwrap().energy.unwrap().current
}

#[test]
fn each_pair_in_a_cell_collides_once() {
    let mut w = World::new();
    let a = w.spawn(at(EntityKind::Prey, 1, 1)).unwrap();
    let b = w.spawn(at(EntityKind::Plant, 1, 1)).unwrap();
    let _c = w.spawn(at(EntityKind::Plant, 1, 2)).unwrap();
    let d = w.spawn(at(EntityKind::Predator, 1, 1)).unwrap();
    let e = w.spawn(at(EntityKind::Prey, 1, 1)).unwrap();
    w.despawn(e);
    assert_eq!(
        check_collisions(&w),
        vec![CollisionEvent(a, b), CollisionEvent(a, d), CollisionEvent(b, d)]
    );
}

#[test]
fn no_shared_cell_no_collision() {
    let mut w = World::new();
    w.spawn(at(EntityKind::Prey, 0, 0)).unwrap();
    w.spawn(at(EntityKind::Prey, 0, 1)).unwrap();
    w.spawn(at(EntityKind::Prey, 1, 0)).unwrap();
    assert!(check_collisions(&w).is_empty());
    assert!(check_collisions(&World::new()).is_empty());
}

#[test]
fn predator_eats_prey_in_its_cell() {
    let mut w = World::new();
    let hunter = w.spawn(at(EntityKind::Predator, 3, 3)).unwrap();
    let prey = w.spawn(at(EntityKind::Prey, 3, 3)).unwrap();
    assert_eq!(w.get(prey).unwrap().edible, Some(Edible { nutrition: 20_000 }));
    let before = energy_of(&w, hunter);
    let hits = check_collisions(&w);
    assert_eq!(hits, vec![CollisionEvent(hunter, prey)]);
    let breeds = handle_collisions(&mut w, &hits);
    assert!(breeds.is_empty());
    assert_eq!(energy_of(&w, hunter), before + 20_000);
    assert!(!w.is_alive(prey));
    assert!(w.is_alive(hunter));
}

#[test]
fn a_meal_is_capped_at_the_capacity() {
    let mut w = World::new();
    let hunter = w.spawn(at(EntityKind::Predator, 3, 3)).unwrap();
    let prey = w.spawn(at(EntityKind::Prey, 3, 3)).unwrap();
    alter(&mut w, hunter, |it| it.energy = Some(Energy { current: 95_000, max: 100_000, drain_rate: 0 }));
    assert!(eat(&mut w, hunter, prey));
    assert_eq!(energy_of(&w, hunter), 100_000);
    assert!(!w.is_alive(prey));
}

#[test]
fn the_second_of_a_pair_eats_where_the_first_cannot() {
    let mut w = World::new();
    let prey = w.spawn(at(EntityKind::Prey, 0, 0)).unwrap();
    let hunter = w.spawn(at(EntityKind::Predator, 0, 0)).unwrap();
    let x = *w.get(prey).unwrap();
    let y = *w.get(hunter).unwrap();
    assert_eq!(resolve_collision(prey, &x, hunter, &y), Outcome::Meal { eater: hunter, eaten: prey });
    handle_collisions(&mut w, &vec![CollisionEvent(prey, hunter)]);
    assert!(!w.is_alive(prey));
    assert_eq!(energy_of(&w, hunter), 40_000);
}

#[test]
fn prey_is_eaten_once_though_two_hunters_share_its_cell() {
    let mut w = World::new();
    let first = w.spawn(at(EntityKind::Predator, 0, 0)).unwrap();
    let second = w.spawn(at(EntityKind::Predator, 0, 0)).unwrap();
    let prey = w.spawn(at(EntityKind::Prey, 0, 0)).unwrap();
    let hits = check_collisions(&w);
    assert_eq!(
        hits,
        vec![CollisionEvent(first, second), CollisionEvent(first, prey), CollisionEvent(second, prey)]
    );
    handle_collisions(&mut w, &hits);
    assert!(!w.is_alive(prey));
    assert_eq!(energy_of(&w, first), 40_000);
    assert_eq!(energy_of(&w, second), 20_000);
}

#[test]
fn the_same_collision_twice_feeds_once() {
    let mut w = World::new();
    let hunter = w.spawn(at(EntityKind::Predator, 0, 0)).unwrap();
    let prey = w.spawn(at(EntityKind::Prey, 0, 0)).unwrap();
    let e = CollisionEvent(hunter, prey);
    handle_collisions(&mut w, &vec![e, e, CollisionEvent(prey, hunter)]);
    assert_eq!(energy_of(&w, hunter), 40_000);
}

#[test]
fn eating_needs_two_living_agents_energy_and_something_edible() {
    let mut w = World::new();
    let hunter = w.spawn(at(EntityKind::Predator, 0, 0)).unwrap();
    let prey = w.spawn(at(EntityKind::Prey, 0, 0)).unwrap();
    let plant = w.spawn(at(EntityKind::Plant, 0, 0)).unwrap();
    assert!(!eat(&mut w, hunter, hunter));
    assert!(!eat(&mut w, hunter, 77));
    assert!(!eat(&mut w, 77, prey));
    assert!(!eat(&mut w, prey, hunter));
    assert!(!eat(&mut w, plant, prey));
    assert!(w.is_alive(prey) && w.is_alive(hunter) && w.is_alive(plant));
    assert_eq!(energy_of(&w, hunter), 20_000);
    assert!(eat(&mut w, prey, plant));
    assert_eq!(energy_of(&w, prey), 25_000);
    assert!(!eat(&mut w, prey, plant));
    assert_eq!(energy_of(&w, prey), 25_000);
}

#[test]
fn two_of_a_kind_that_may_breed_do_not_eat() {
    let mut w = World::new();
    let a = w.spawn(at(EntityKind::Prey, 0, 0)).unwrap();
    let b = w.spawn(at(EntityKind::Prey, 0, 0)).unwrap();
    alter(&mut w, a, |it| it.can_breed = true);
    alter(&mut w, b, |it| it.can_breed = true);
    alter(&mut w, a, |it| it.diet.prey = true);
    let breeds = handle_collisions(&mut w, &vec![CollisionEvent(a, b)]);
    assert_eq!(breeds, vec![BreedEvent(a, b)]);
    assert!(w.is_alive(a) && w.is_alive(b));
    alter(&mut w, b, |it| it.can_breed = false);
    let breeds = handle_collisions(&mut w, &vec![CollisionEvent(a, b)]);
    assert!(breeds.is_empty());
    assert!(!w.is_alive(b));
}

#[test]
fn nothing_comes_of_strangers_meeting() {
    let mut w = World::new();
    let a = w.spawn(at(EntityKind::Plant, 0, 0)).unwrap();
    let b = w.spawn(at(EntityKind::Plant, 0, 0)).unwrap();
    let h = w.spawn(at(EntityKind::Predator, 0, 0)).unwrap();
    let x = *w.get(a).unwrap();
    let y = *w.get(b).unwrap();
    let z = *w.get(h).unwrap();
    assert_eq!(resolve_collision(a, &x, b, &y), Outcome::Nothing);
    assert_eq!(resolve_collision(a, &x, h, &z), Outcome::Nothing);
    let breeds = handle_collisions(&mut w, &vec![CollisionEvent(a, b), CollisionEvent(a, h), CollisionEvent(a, a)]);
    assert!(breeds.is_empty());
    assert!(w.is_alive(a) && w.is_alive(b) && w.is_alive(h));
}

#[test]
fn breeding_costs_both_parents_and_bears_one_child() {
    let mut w = World::new();
    let a = w.spawn(at(EntityKind::Prey, 4, -2)).unwrap();
    let b = w.spawn(at(EntityKind::Prey, 4, -2)).unwrap();
    alter(&mut w, a, |it| it.energy = Some(Energy { current: 50_000, max: 100_000, drain_rate: 5_000 }));
    alter(&mut w, b, |it| it.energy = Some(Energy { current: 30_000, max: 100_000, drain_rate: 5_000 }));
    alter(&mut w, a, |it| it.behavior = Some(MotionBehavior::Seek { target: b }));
    let child = breed(&mut w, BreedEvent(a, b), &Config::standard()).unwrap();
    assert_eq!(w.len(), 3);
    assert_eq!(child, 2);
    assert_eq!(energy_of(&w, a), 30_000);
    assert_eq!(energy_of(&w, b), 10_000);
    assert_eq!(*w.get(child).unwrap(), juvenile(&Config::standard(), EntityKind::Prey, Position { x: 4, y: -2 }, None));
    assert_eq!(w.get(a).unwrap().behavior, Some(MotionBehavior::Seek { target: b }));
}

#[test]
fn no_child_and_no_cost_where_a_parent_cannot_pay() {
    let mut w = World::new();
    let a = w.spawn(at(EntityKind::Prey, 0, 0)).unwrap();
    let b = w.spawn(at(EntityKind::Prey, 0, 0)).unwrap();
    alter(&mut w, a, |it| it.energy = Some(Energy { current: 50_000, max: 100_000, drain_rate: 5_000 }));
    alter(&mut w, b, |it| it.energy = Some(Energy { current: 19_999, max: 100_000, drain_rate: 5_000 }));
    assert_eq!(breed(&mut w, BreedEvent(a, b), &Config::standard()), None);
    assert_eq!(breed(&mut w, BreedEvent(b, a), &Config::standard()), None);
    assert_eq!(w.len(), 2);
    assert_eq!(energy_of(&w, a), 50_000);
    assert_eq!(energy_of(&w, b), 19_999);
    assert_eq!(breed(&mut w, BreedEvent(a, a), &Config::standard()), None);
    assert_eq!(breed(&mut w, BreedEvent(a, 9), &Config::standard()), None);
    let p = w.spawn(at(EntityKind::Plant, 0, 0)).unwrap();
    assert_eq!(breed(&mut w, BreedEvent(a, p), &Config::standard()), None);
    assert_eq!(energy_of(&w, a), 50_000);
}

#[test]
fn breedings_are_worked_off_in_order() {
    let mut w = World::new();
    let a = w.spawn(at(EntityKind::Prey, 1, 1)).unwrap();
    let b = w.spawn(at(EntityKind::Prey, 1, 1)).unwrap();
    let c = w.spawn(at(EntityKind::Predator, 7, 7)).unwrap();
    let d = w.spawn(at(EntityKind::Predator, 7, 7)).unwrap();
    for id in [a, b, c, d] {
        alter(&mut w, id, |it| it.energy = Some(Energy { current: 40_000, max: 100_000, drain_rate: 0 }));
    }
    let children = handle_breeding(
        &mut w,
        &vec![BreedEvent(a, b), BreedEvent(c, d), BreedEvent(a, b), BreedEvent(a, b)],
        &Config::standard(),
    );
    assert_eq!(children, vec![4, 5, 6]);
    assert_eq!(energy_of(&w, a), 0);
    assert_eq!(energy_of(&w, b), 0);
    assert_eq!(energy_of(&w, c), 20_000);
    assert_eq!(w.get(4).unwrap().kind, EntityKind::Prey);
    assert_eq!(w.get(5).unwrap().kind, EntityKind::Predator);
    assert_eq!(w.get(5).unwrap().position, Position { x: 7, y: 7 });
    assert_eq!(w.len(), 7);
}

#[test]
fn the_breeding_cost_comes_from_the_configuration() {
    let config = Config { breeding_cost: 1, ..Config::standard() };
    let mut w = World::new();
    let a = w.spawn(at(EntityKind::Prey, 0, 0)).unwrap();
    let b = w.spawn(at(EntityKind::Prey, 0, 0)).unwrap();
    assert_eq!(breed(&mut w, BreedEvent(a, b), &Config::standard()), Some(2));
    assert_eq!(energy_of(&w, a), 0);
    assert_eq!(breed(&mut w, BreedEvent(b, 2), &config), None);
    assert_eq!(breed(&mut w, BreedEvent(2, b), &Config { breeding_cost: 0, ..config }), Some(3));
    assert_eq!(energy_of(&w, 2), 20_000);
}
