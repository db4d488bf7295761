use ecosim::geometry::Position;
use ecosim::growth::{
    cardinal_weights, chance_of_growth, grow_from, is_occupied, pick_cardinal, pick_diagonal,
    plant_growth, sprout, Weights, CARDINAL_WEIGHT, GROWTH_CHANCE_PER_SECOND,
};

fn cell(x: i32, y: i32) -> Position {
    Position { x, y }
}

#[test]
fn a_direction_that_carries_on_a_line_weighs_sixteen() {
    let plants = vec![cell(0, 0), cell(1, 0)];
    let w = cardinal_weights(&plants, cell(0, 0));
    assert_eq!(w, Weights { east: 1, west: 16, north: 1, south: 1 });
    let v = cardinal_weights(&plants, cell(1, 0));
    assert_eq!(v, Weights { east: 16, west: 1, north: 1, south: 1 });
}

#[test]
fn a_lone_plant_weighs_all_directions_alike() {
    let w = cardinal_weights(&vec![cell(5, 5)], cell(5, 5));
    assert_eq!(w, Weights { east: 1, west: 1, north: 1, south: 1 });
}

#[test]
fn a_plant_in_a_cross_weighs_all_directions_sixteen() {
    let plants = vec![cell(0, 0), cell(1, 0), cell(-1, 0), cell(0, 1), cell(0, -1)];
    let w = cardinal_weights(&plants, cell(0, 0));
    assert_eq!(w, Weights { east: 16, west: 16, north: 16, south: 16 });
}

#[test]
fn the_choice_falls_on_the_weights_laid_end_to_end() {
    let w = Weights { east: 1, west: 16, north: 1, south: 1 };
    assert_eq!(pick_cardinal(&w, 0), (1, 0));
    assert_eq!(pick_cardinal(&w, 1), (-1, 0));
    assert_eq!(pick_cardinal(&w, 16), (-1, 0));
    assert_eq!(pick_cardinal(&w, 17), (0, 1));
    assert_eq!(pick_cardinal(&w, 18), (0, -1));
    assert_eq!(pick_cardinal(&w, 19), (1, 0));
}

#[test]
fn diagonals_go_by_number() {
    assert_eq!(pick_diagonal(0), (1, 1));
    assert_eq!(pick_diagonal(1), (-1, 1));
    assert_eq!(pick_diagonal(2), (1, -1));
    assert_eq!(pick_diagonal(3), (-1, -1));
    assert_eq!(pick_diagonal(4), (-1, -1));
}

#[test]
fn line_growth_from_two_plants_in_a_row() {
    let plants = vec![cell(0, 0), cell(1, 0)];
    let none: Vec<Position> = vec![];
    let mut west = 0;
    let mut north = 0;
    let mut south = 0;
    let mut rejected = 0;
    for pick in 0..19u32 {
        match grow_from(&plants, &none, cell(0, 0), 1_000, CARDINAL_WEIGHT, 0, 0, pick) {
            Some(p) if p == cell(-1, 0) => west += 1,
            Some(p) if p == cell(0, 1) => north += 1,
            Some(p) if p == cell(0, -1) => south += 1,
            Some(p) => panic!("unexpected sprout at {:?}", p),
            None => rejected += 1,
        }
    }
    assert_eq!((west, north, south, rejected), (16, 1, 1, 1));
    assert_eq!(grow_from(&plants, &none, cell(0, 0), 1_000, CARDINAL_WEIGHT, 0, 0, 0), None);
}

#[test]
fn no_growth_unless_the_roll_is_below_the_chance() {
    let plants = vec![cell(0, 0)];
    let none: Vec<Position> = vec![];
    assert_eq!(grow_from(&plants, &none, cell(0, 0), 48, 900, 48, 0, 0), None);
    assert_eq!(grow_from(&plants, &none, cell(0, 0), 48, 900, 47, 0, 0), Some(cell(1, 0)));
    assert_eq!(grow_from(&plants, &none, cell(0, 0), 0, 900, 0, 0, 0), None);
}

#[test]
fn the_branch_roll_picks_axis_or_diagonal() {
    let plants = vec![cell(0, 0)];
    let none: Vec<Position> = vec![];
    assert_eq!(grow_from(&plants, &none, cell(0, 0), 1_000, 900, 0, 899, 2), Some(cell(0, 1)));
    assert_eq!(grow_from(&plants, &none, cell(0, 0), 1_000, 900, 0, 900, 2), Some(cell(1, -1)));
    assert_eq!(grow_from(&plants, &none, cell(0, 0), 1_000, 900, 0, 999, 1), Some(cell(-1, 1)));
}

#[test]
fn a_taken_cell_is_not_grown_into() {
    let plants = vec![cell(0, 0), cell(1, 1)];
    let sprouts = vec![cell(-1, -1)];
    assert_eq!(sprout(&plants, &sprouts, cell(0, 0), (1, 1)), None);
    assert_eq!(sprout(&plants, &sprouts, cell(0, 0), (-1, -1)), None);
    assert_eq!(sprout(&plants, &sprouts, cell(0, 0), (-1, 1)), Some(cell(-1, 1)));
    assert_eq!(sprout(&plants, &sprouts, cell(0, 0), (0, 0)), None);
}

#[test]
fn growth_stops_at_the_edge_of_the_grid() {
    let plants = vec![cell(i32::MAX, i32::MIN)];
    let none: Vec<Position> = vec![];
    assert_eq!(sprout(&plants, &none, plants[0], (1, 0)), None);
    assert_eq!(sprout(&plants, &none, plants[0], (0, -1)), None);
    assert_eq!(sprout(&plants, &none, plants[0], (-1, 1)), Some(cell(i32::MAX - 1, i32::MIN + 1)));
    let w = cardinal_weights(&plants, plants[0]);
    assert_eq!(w, Weights { east: 1, west: 1, north: 1, south: 1 });
}

#[test]
fn occupied_means_a_plant_stands_there() {
    let plants = vec![cell(0, 0), cell(-3, 8)];
    assert!(is_occupied(&plants, -3, 8));
    assert!(!is_occupied(&plants, 8, -3));
    assert!(!is_occupied(&plants, 1 << 40, 0));
    assert!(!is_occupied(&vec![], 0, 0));
}

#[test]
fn the_chance_is_the_rate_times_the_time() {
    assert_eq!(chance_of_growth(GROWTH_CHANCE_PER_SECOND, 16), 48);
    assert_eq!(chance_of_growth(800, 16), 12);
    assert_eq!(chance_of_growth(3_000, 333), 999);
    assert_eq!(chance_of_growth(3_000, 334), 1_000);
    assert_eq!(chance_of_growth(u32::MAX, u64::MAX), 1_000);
    assert_eq!(chance_of_growth(0, 1_000), 0);
}

#[test]
fn growth_never_puts_two_plants_in_one_cell() {
    let mut plants = vec![cell(0, 0), cell(1, 0), cell(0, 1), cell(5, 5)];
    for _ in 0..40 {
        let sprouts = plant_growth(&plants, GROWTH_CHANCE_PER_SECOND, CARDINAL_WEIGHT, 200);
        for (i, s) in sprouts.iter().enumerate() {
            assert!(!plants.contains(s));
            assert!(!sprouts[..i].contains(s));
            assert!(plants
                .iter()
                .any(|p| (p.x - s.x).abs() <= 1 && (p.y - s.y).abs() <= 1 && p != s));
        }
        plants.extend(sprouts);
        if plants.len() > 400 {
            break;
        }
    }
    assert!(plants.len() > 4);
}

#[test]
fn nothing_grows_in_no_time() {
    let plants = vec![cell(0, 0), cell(1, 0)];
    for _ in 0..50 {
        assert!(plant_growth(&plants, GROWTH_CHANCE_PER_SECOND, CARDINAL_WEIGHT, 0).is_empty());
    }
    assert!(plant_growth(&vec![], GROWTH_CHANCE_PER_SECOND, CARDINAL_WEIGHT, 1_000).is_empty());
}

#[test]
fn where_growth_is_certain_every_plant_with_room_sprouts() {
    let mut plants = Vec::new();
    for i in 0..20 {
        plants.push(cell(3 * i, -3 * i));
    }
    for _ in 0..20 {
        let sprouts = plant_growth(&plants, 3_000, CARDINAL_WEIGHT, 1_000);
        assert_eq!(sprouts.len(), plants.len());
        for (p, s) in plants.iter().zip(sprouts.iter()) {
            assert!((p.x - s.x).abs() <= 1 && (p.y - s.y).abs() <= 1 && p != s);
        }
    }
}

#[test]
fn no_plant_sprouts_twice_in_a_tick() {
    let plants = vec![cell(0, 0), cell(10, 0), cell(20, 0)];
    for dt in [1u64, 50, 200, 333, 334, 5_000] {
        for _ in 0..20 {
            let sprouts = plant_growth(&plants, GROWTH_CHANCE_PER_SECOND, CARDINAL_WEIGHT, dt);
            assert!(sprouts.len() <= plants.len());
            let mut last = 0;
            for s in &sprouts {
                let from = plants
                    .iter()
                    .position(|p| (p.x - s.x).abs() <= 1 && (p.y - s.y).abs() <= 1)
                    .unwrap();
                assert!(sprouts.len() == 1 || from >= last);
                last = from;
            }
        }
    }
}

#[test]
fn a_hemmed_in_plant_cannot_grow() {
    let mut plants = vec![cell(0, 0)];
    for dx in -1..=1 {
        for dy in -1..=1 {
            if (dx, dy) != (0, 0) {
                plants.push(cell(dx, dy));
            }
        }
    }
    let lone = vec![plants[0]];
    let ring: Vec<Position> = plants[1..].to_vec();
    for pick in 0..64u32 {
        assert_eq!(grow_from(&plants, &vec![], plants[0], 1_000, 900, 0, 0, pick), None);
        assert_eq!(grow_from(&plants, &vec![], plants[0], 1_000, 900, 0, 950, pick), None);
        assert_eq!(grow_from(&lone, &ring, lone[0], 1_000, 900, 0, 950, pick), None);
    }
}
