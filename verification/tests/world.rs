use ecosim::entities::Agent;
use ecosim::config::Config;
use ecosim::energy::Energy;
use ecosim::entities::EntityKind;
use ecosim::geometry::Position;
use ecosim::spawn::juvenile;
use ecosim::world::World;

fn alter(w: &mut World, id: u64, change: impl FnOnce(&mut Agent)) {
    let mut a = *w.get(id).unwrap();
    change(&mut a);
    assert!(w.replace(id, a));
}

#[test]
fn a_new_world_is_empty() {
    let w = World::new();
    assert_eq!(w.len(), 0);
    assert!(!w.is_alive(0));
    assert!(w.get(0).is_none());
}

#[test]
fn spawn_hands_out_rising_ids() {
    let mut w = World::new();
    let a = w.spawn(juvenile(&Config::standard(), EntityKind::Plant, Position { x: 1, y: 2 }, None));
    let b = w.spawn(juvenile(&Config::standard(), EntityKind::Prey, Position { x: 3, y: 4 }, None));
    assert_eq!(a, Some(0));
    assert_eq!(b, Some(1));
    assert_eq!(w.len(), 2);
    assert_eq!(w.get(1).unwrap().position, Position { x: 3, y: 4 });
    assert_eq!(w.get(0).unwrap().kind, EntityKind::Plant);
}

#[test]
fn spawn_turns_an_overfull_agent_away() {
    let mut w = World::new();
    let mut a = juvenile(&Config::standard(), EntityKind::Prey, Position { x: 0, y: 0 }, None);
    a.energy = Some(Energy { current: 11, max: 10, drain_rate: 0 });
    assert_eq!(w.spawn(a), None);
    assert_eq!(w.len(), 0);
}

#[test]
fn a_despawned_id_is_never_reused() {
    let mut w = World::new();
    let a = w.spawn(juvenile(&Config::standard(), EntityKind::Plant, Position { x: 0, y: 0 }, None)).unwrap();
    assert!(w.despawn(a));
    assert!(!w.is_alive(a));
    assert!(!w.despawn(a));
    let b = w.spawn(juvenile(&Config::standard(), EntityKind::Plant, Position { x: 0, y: 0 }, None)).unwrap();
    assert_ne!(a, b);
    assert!(!w.is_alive(a));
    assert!(w.is_alive(b));
    assert!(!w.despawn(99));
}

#[test]
fn replace_changes_the_agent_but_not_its_kind() {
    let mut w = World::new();
    let a = w.spawn(juvenile(&Config::standard(), EntityKind::Prey, Position { x: 0, y: 0 }, None)).unwrap();
    alter(&mut w, a, |it| it.position = Position { x: 5, y: -5 });
    assert_eq!(w.get(a).unwrap().position, Position { x: 5, y: -5 });
    let mut overfull = *w.get(a).unwrap();
    overfull.energy = Some(Energy { current: 11, max: 10, drain_rate: 0 });
    assert!(!w.replace(a, overfull));
    let plant = juvenile(&Config::standard(), EntityKind::Plant, Position { x: 0, y: 0 }, None);
    assert!(!w.replace(a, plant));
    assert!(!w.replace(99, plant));
    assert_eq!(w.get(a).unwrap().kind, EntityKind::Prey);
    assert_eq!(w.get(a).unwrap().energy.unwrap().current, 20_000);
}

#[test]
fn sightings_start_empty_and_can_be_replaced() {
    let mut w = World::new();
    let a = w.spawn(juvenile(&Config::standard(), EntityKind::Prey, Position { x: 0, y: 0 }, None)).unwrap();
    assert!(w.sightings(a).is_empty());
    w.set_sightings(
        a,
        vec![ecosim::entities::Sighting { id: 7, kind: EntityKind::Plant, dist_sq: 4 }],
    );
    assert_eq!(w.sightings(a).len(), 1);
    assert_eq!(w.sightings(a)[0].id, 7);
}

#[test]
fn a_snapshot_lists_the_living_by_id() {
    let mut w = World::new();
    let a = w.spawn(juvenile(&Config::standard(), EntityKind::Plant, Position { x: 1, y: 2 }, None)).unwrap();
    let b = w.spawn(juvenile(&Config::standard(), EntityKind::Prey, Position { x: 3, y: 4 }, None)).unwrap();
    let c = w.spawn(juvenile(&Config::standard(), EntityKind::Predator, Position { x: 5, y: 6 }, None)).unwrap();
    w.despawn(b);
    let shots = w.snapshot();
    assert_eq!(
        shots,
        vec![
            ecosim::world::Snapshot {
                id: a,
                kind: EntityKind::Plant,
                place: ecosim::geometry::Point { x: 6_000, y: 12_000 },
                position: Position { x: 1, y: 2 },
            },
            ecosim::world::Snapshot {
                id: c,
                kind: EntityKind::Predator,
                place: ecosim::geometry::Point { x: 30_000, y: 36_000 },
                position: Position { x: 5, y: 6 },
            },
        ]
    );
    assert!(World::new().snapshot().is_empty());
}
