use ecosim::eating::{eating, ENERGY_GAIN_FROM_PLANT};
use ecosim::energy::Energy;
use ecosim::geometry::Point;

fn p(x: i32, y: i32) -> Point {
    Point { x, y }
}

fn hungry() -> Energy {
    Energy { current: 50_000, max: 100_000, drain_rate: 25_000 }
}

#[test]
fn a_plant_within_reach_is_eaten() {
    let mut animals = vec![(p(0, 0), hungry())];
    let plants = vec![p(2_000, 0), p(900, 1_200), p(0, 0)];
    let eaten = eating(&mut animals, &plants);
    assert_eq!(eaten, vec![1]);
    assert_eq!(animals[0].1.current, 50_000 + ENERGY_GAIN_FROM_PLANT);
    assert_eq!(animals[0].0, p(0, 0));
}

#[test]
fn a_plant_just_out_of_reach_is_not() {
    let mut animals = vec![(p(0, 0), hungry())];
    let eaten = eating(&mut animals, &vec![p(1_500, 1), p(-1_501, 0)]);
    assert!(eaten.is_empty());
    assert_eq!(animals[0].1, hungry());
}

#[test]
fn no_plant_is_eaten_twice() {
    let mut animals = vec![(p(0, 0), hungry()), (p(100, 0), hungry()), (p(0, 100), hungry())];
    let plants = vec![p(0, 0), p(50, 50)];
    let eaten = eating(&mut animals, &plants);
    assert_eq!(eaten, vec![0, 1]);
    assert_eq!(animals[0].1.current, 60_000);
    assert_eq!(animals[1].1.current, 60_000);
    assert_eq!(animals[2].1.current, 50_000);
}

#[test]
fn each_animal_eats_one_plant_a_round() {
    let mut animals = vec![(p(0, 0), hungry())];
    let plants = vec![p(0, 0), p(1, 1), p(2, 2)];
    assert_eq!(eating(&mut animals, &plants), vec![0]);
    assert_eq!(animals[0].1.current, 60_000);
}

#[test]
fn the_gain_is_capped() {
    let mut animals = vec![(p(0, 0), Energy { current: 95_000, max: 100_000, drain_rate: 0 })];
    assert_eq!(eating(&mut animals, &vec![p(0, 1_500)]), vec![0]);
    assert_eq!(animals[0].1.current, 100_000);
}

#[test]
fn nothing_to_eat_or_nobody_to_eat_it() {
    let mut animals = vec![(p(0, 0), hungry())];
    assert!(eating(&mut animals, &vec![]).is_empty());
    let mut nobody: Vec<(Point, Energy)> = vec![];
    assert!(eating(&mut nobody, &vec![p(0, 0)]).is_empty());
}
