use ecosim::entities::Agent;
use ecosim::config::Config;
use ecosim::entities::{EntityKind, Motion, MotionBehavior, Traits};
use ecosim::geometry::{Point, Position};
use ecosim::movement::{
    advance, blend, cell_centre, direction_to, max_turn, move_agent, move_agents,
    movement_system, nearest_plant, plan_moves, prey_movement, prey_steering, prey_turn,
    quantize, steer, steered, step_agent, step_length, turn_agent, turn_toward, wrap_angle,
    Steering, WanderRolls, FULL_TURN, HALF_TURN, WANDER_ARC,
};
use ecosim::spawn::juvenile;
use ecosim::world::World;

fn alter(w: &mut World, id: u64, change: impl FnOnce(&mut Agent)) {
    let mut a = *w.get(id).unwrap();
    change(&mut a);
    assert!(w.replace(id, a));
}

fn cell(x: i32, y: i32) -> Position {
    Position { x, y }
}

fn bearing_of(dx: i64, dy: i64) -> i32 {
    ((dy as f64).atan2(dx as f64) * 1000.0).round() as i32
}

fn trig_of(heading: i32) -> (i32, i32) {
    let angle = heading as f64 / 1000.0;
    ((angle.cos() * 1000.0).round() as i32, (angle.sin() * 1000.0).round() as i32)
}

fn still() -> WanderRolls {
    WanderRolls { turn: 999, angle: 0 }
}

fn turning(angle: u32) -> WanderRolls {
    WanderRolls { turn: 0, angle }
}

#[test]
fn seeking_a_target_in_the_same_cell_keeps_the_heading() {
    let s = steer(MotionBehavior::Seek { target: 1 }, cell(0, 0), Some(cell(0, 0)), still());
    assert_eq!(s, Steering::Keep);
    let s = steer(MotionBehavior::Evade { target: 1 }, cell(3, 3), Some(cell(3, 3)), turning(9));
    assert_eq!(s, Steering::Keep);
}

#[test]
fn seeking_turns_towards_and_fleeing_away() {
    let s = steer(MotionBehavior::Seek { target: 1 }, cell(1, 2), Some(cell(4, -2)), still());
    assert_eq!(s, Steering::Toward { dx: 3, dy: -4 });
    let s = steer(MotionBehavior::Evade { target: 1 }, cell(1, 2), Some(cell(4, -2)), still());
    assert_eq!(s, Steering::Toward { dx: -3, dy: 4 });
    let s = steer(MotionBehavior::Seek { target: 1 }, cell(i32::MIN, 0), Some(cell(i32::MAX, 0)), still());
    assert_eq!(s, Steering::Toward { dx: u32::MAX as i64, dy: 0 });
}

#[test]
fn a_lost_target_keeps_the_heading() {
    assert_eq!(steer(MotionBehavior::Seek { target: 1 }, cell(1, 2), None, turning(5)), Steering::Keep);
    assert_eq!(steer(MotionBehavior::Evade { target: 1 }, cell(1, 2), None, turning(5)), Steering::Keep);
}

#[test]
fn roaming_turns_only_on_the_roll() {
    let wander = MotionBehavior::Wander;
    assert_eq!(steer(wander, cell(0, 0), None, still()), Steering::Keep);
    assert_eq!(steer(wander, cell(0, 0), None, turning(77)), Steering::Perturb { angle: 77 });
    let on_the_edge = WanderRolls { turn: 99, angle: 6_282 };
    assert_eq!(steer(wander, cell(0, 0), None, on_the_edge), Steering::Perturb { angle: 6_282 });
    let just_not = WanderRolls { turn: 100, angle: 77 };
    assert_eq!(steer(wander, cell(0, 0), Some(cell(1, 1)), just_not), Steering::Keep);
    let beyond = WanderRolls { turn: 0, angle: 6_283 + 5 };
    assert_eq!(steer(wander, cell(0, 0), None, beyond), Steering::Perturb { angle: 5 });
}

#[test]
fn angles_wrap_by_whole_turns() {
    assert_eq!(wrap_angle(0), 0);
    assert_eq!(wrap_angle(3_141), 3_141);
    assert_eq!(wrap_angle(3_142), -3_141);
    assert_eq!(wrap_angle(-3_141), -3_141);
    assert_eq!(wrap_angle(-3_142), 3_141);
    assert_eq!(wrap_angle(6_283), 0);
    assert_eq!(wrap_angle(-6_283), 0);
    assert_eq!(wrap_angle(6_283 * 1_000 + 5), 5);
    assert_eq!(wrap_angle(-6_283 * 1_000 - 5), -5);
    assert_eq!(FULL_TURN, 2 * HALF_TURN + 1);
}

#[test]
fn a_turn_is_limited_by_the_turning_rate() {
    assert_eq!(max_turn(3_000, 100), 300);
    assert_eq!(max_turn(10_000, 16), 160);
    assert_eq!(max_turn(10_000, 10_000), FULL_TURN);
    assert_eq!(max_turn(0, 1_000), 0);
    assert_eq!(turn_toward(0, 1_000, 300), 300);
    assert_eq!(turn_toward(0, -1_000, 300), -300);
    assert_eq!(turn_toward(0, 200, 300), 200);
    assert_eq!(turn_toward(500, 500, 300), 500);
    assert_eq!(turn_toward(0, 1_000, 0), 0);
}

#[test]
fn a_turn_goes_the_short_way_round() {
    assert_eq!(turn_toward(3_000, -3_000, 100), 3_100);
    assert_eq!(turn_toward(3_100, -3_000, 100), -3_083);
    assert_eq!(turn_toward(-3_000, 3_000, 100), -3_100);
    assert_eq!(turn_toward(3_000, -3_000, 1_000), -3_000);
}

#[test]
fn prey_turns_at_its_rate_and_runs_at_top_speed() {
    let mut m = Motion { direction: 0, speed: 0 };
    let t = Traits { max_speed: 80_000, turn_speed: 10_000 };
    let to_plant = Some(Steering::Toward { dx: 0, dy: 5 });
    prey_turn(&mut m, &t, to_plant, 1_571, 0, 16);
    assert_eq!(m, Motion { direction: 160, speed: 80_000 });
    prey_turn(&mut m, &t, to_plant, 1_571, 0, 1_000);
    assert_eq!(m, Motion { direction: 1_571, speed: 80_000 });
}

#[test]
fn prey_on_top_of_its_plant_keeps_its_heading() {
    let mut at = Point { x: 40, y: -40 };
    let plants = vec![Point { x: 900, y: 0 }, at];
    assert_eq!(prey_steering(at, &plants), Some(Steering::Keep));
    let mut m = Motion { direction: 1_234, speed: 3 };
    let t = Traits { max_speed: 80_000, turn_speed: 10_000 };
    prey_movement(&mut at, &mut m, &t, &plants, &bearing_of, &trig_of, 1_000);
    assert_eq!(m, Motion { direction: 1_234, speed: 80_000 });
    assert_eq!(trig_of(1_234), (330, 944));
    assert_eq!(at, Point { x: 40 + 26_400, y: -40 + 75_520 });
}

#[test]
fn prey_steers_at_the_nearest_plant_in_sight() {
    let at = Point { x: 0, y: 0 };
    let plants = vec![
        Point { x: 90_000, y: 0 },
        Point { x: 0, y: -50_000 },
        Point { x: 50_000, y: 0 },
        Point { x: 200_000, y: 0 },
    ];
    assert_eq!(prey_steering(at, &plants), Some(Steering::Toward { dx: 0, dy: -50_000 }));
    assert_eq!(prey_steering(at, &vec![Point { x: 100_000, y: 1 }]), None);
    assert_eq!(prey_steering(at, &vec![]), None);
}

#[test]
fn a_prey_animal_makes_its_whole_step() {
    let plants = vec![Point { x: 90_000, y: 0 }, Point { x: 0, y: -50_000 }];
    let t = Traits { max_speed: 80_000, turn_speed: 10_000 };
    let mut at = Point { x: 0, y: 0 };
    let mut m = Motion { direction: 0, speed: 0 };
    prey_movement(&mut at, &mut m, &t, &plants, &bearing_of, &trig_of, 16);
    assert_eq!(m, Motion { direction: -160, speed: 80_000 });
    assert_eq!(trig_of(-160), (987, -159));
    assert_eq!(at, Point { x: 1_263, y: -203 });
    prey_movement(&mut at, &mut m, &t, &plants, &bearing_of, &trig_of, 1_000);
    assert_eq!(m.direction, bearing_of(-1_263, -50_000 + 203));
    for _ in 0..200 {
        let mut at = Point { x: 0, y: 0 };
        let mut m = Motion { direction: 100, speed: 0 };
        prey_movement(&mut at, &mut m, &t, &vec![], &bearing_of, &trig_of, 1_000);
        assert!((-400..600).contains(&m.direction));
        assert_eq!(m.speed, 80_000);
        let (cos, sin) = trig_of(m.direction);
        assert_eq!(at, Point { x: 80 * cos, y: 80 * sin });
    }
}

#[test]
fn prey_without_a_plant_in_sight_turns_on_the_roll() {
    let t = Traits { max_speed: 80_000, turn_speed: 10_000 };
    let mut m = Motion { direction: 100, speed: 0 };
    prey_turn(&mut m, &t, None, 0, 0, 1_000);
    assert_eq!(m, Motion { direction: -400, speed: 80_000 });
    let mut m = Motion { direction: 100, speed: 0 };
    prey_turn(&mut m, &t, None, 0, 999, 1_000);
    assert_eq!(m.direction, 599);
    let mut m = Motion { direction: 100, speed: 0 };
    prey_turn(&mut m, &t, None, 0, 500, 1_000);
    assert_eq!(m.direction, 100);
    let mut m = Motion { direction: 100, speed: 0 };
    prey_turn(&mut m, &t, None, 0, 1_000 + 999, 16);
    assert_eq!(m.direction, 260);
    let mut m = Motion { direction: 3_141, speed: 0 };
    prey_turn(&mut m, &t, None, 0, 510, 1_000);
    assert_eq!(m.direction, -3_132);
}

#[test]
fn a_steering_leads_to_a_heading() {
    assert_eq!(steered(700, Steering::Keep, -3_000, 50), 700);
    assert_eq!(steered(i32::MAX, Steering::Keep, 0, 50), i32::MAX);
    assert_eq!(steered(700, Steering::Toward { dx: 1, dy: 0 }, 0, 50), 650);
    assert_eq!(steered(700, Steering::Toward { dx: 1, dy: 0 }, 0, 5_000), 0);
    assert_eq!(steered(700, Steering::Perturb { angle: 0 }, 650, 0), 650);
    assert_eq!(steered(700, Steering::Perturb { angle: 0 }, 0, 6_283), 700 - WANDER_ARC);
    assert_eq!(steered(700, Steering::Perturb { angle: 0 }, 1_500, 0), 700 + WANDER_ARC);
}

#[test]
fn positions_round_to_the_nearest_cell() {
    assert_eq!(quantize(Point { x: 0, y: 0 }), cell(0, 0));
    assert_eq!(quantize(Point { x: 2_999, y: -2_999 }), cell(0, 0));
    assert_eq!(quantize(Point { x: 3_000, y: -3_000 }), cell(1, -1));
    assert_eq!(quantize(Point { x: 8_999, y: -8_999 }), cell(1, -1));
    assert_eq!(quantize(Point { x: 9_000, y: -9_000 }), cell(2, -2));
    assert_eq!(quantize(Point { x: 600_000, y: -600_000 }), cell(100, -100));
    assert_eq!(quantize(Point { x: i32::MAX, y: i32::MIN }), cell(357_914, -357_914));
}

#[test]
fn the_step_is_speed_times_time() {
    assert_eq!(step_length(50_000, 16), 800);
    assert_eq!(step_length(80_000, 1_000), 80_000);
    assert_eq!(step_length(u32::MAX, u64::MAX), (u32::MAX as u128) * (u64::MAX as u128) / 1_000);
}

#[test]
fn the_nearest_plant_in_sight_is_found() {
    let at = Point { x: 0, y: 0 };
    let plants = vec![
        Point { x: 90_000, y: 0 },
        Point { x: 0, y: -50_000 },
        Point { x: 50_000, y: 0 },
        Point { x: 200_000, y: 0 },
    ];
    assert_eq!(nearest_plant(at, &plants), Some(1));
    assert_eq!(nearest_plant(at, &vec![Point { x: 100_000, y: 0 }]), Some(0));
    assert_eq!(nearest_plant(at, &vec![Point { x: 100_000, y: 1 }]), None);
    assert_eq!(nearest_plant(at, &vec![]), None);
}

#[test]
fn there_is_no_direction_to_the_same_point() {
    let at = Point { x: 7, y: 7 };
    assert_eq!(direction_to(at, at), Steering::Keep);
    assert_eq!(direction_to(at, Point { x: 0, y: 10 }), Steering::Toward { dx: -7, dy: 3 });
}

#[test]
fn the_plan_names_every_moving_agent_once() {
    let mut w = World::new();
    let a = w.spawn(juvenile(&Config::standard(), EntityKind::Prey, cell(0, 0), None)).unwrap();
    let _p = w.spawn(juvenile(&Config::standard(), EntityKind::Plant, cell(2, 0), None)).unwrap();
    let b = w.spawn(juvenile(&Config::standard(), EntityKind::Predator, cell(0, 0), None)).unwrap();
    let c = w.spawn(juvenile(&Config::standard(), EntityKind::Prey, cell(9, 9), None)).unwrap();
    let d = w.spawn(juvenile(&Config::standard(), EntityKind::Prey, cell(1, 1), None)).unwrap();
    alter(&mut w, a, |it| it.behavior = Some(MotionBehavior::Seek { target: 1 }));
    alter(&mut w, b, |it| it.behavior = Some(MotionBehavior::Seek { target: a }));
    alter(&mut w, c, |it| it.behavior = Some(MotionBehavior::Evade { target: d }));
    alter(&mut w, d, |it| it.behavior = Some(MotionBehavior::Seek { target: 99 }));
    let expected = vec![
        (a, Steering::Toward { dx: 2, dy: 0 }),
        (b, Steering::Keep),
        (c, Steering::Toward { dx: 8, dy: 8 }),
        (d, Steering::Keep),
    ];
    assert_eq!(movement_system(&w), expected);
    assert_eq!(plan_moves(&w, &vec![turning(5); 5]), expected);
    assert_eq!(plan_moves(&w, &vec![]), expected);
}

#[test]
fn roaming_agents_keep_or_perturb() {
    let mut w = World::new();
    for i in 0..300 {
        w.spawn(juvenile(&Config::standard(), EntityKind::Prey, cell(i, 0), None)).unwrap();
    }
    let plan = movement_system(&w);
    assert_eq!(plan.len(), 300);
    let mut turned = 0;
    for (k, (id, s)) in plan.iter().enumerate() {
        assert_eq!(*id, k as u64);
        match s {
            Steering::Keep => {}
            Steering::Perturb { angle } => {
                assert!((0..FULL_TURN).contains(angle));
                turned += 1;
            }
            Steering::Toward { .. } => panic!("a roaming agent has no target"),
        }
    }
    assert!(turned < 300);
}

#[test]
fn an_agent_turns_within_its_rate_and_takes_its_top_speed() {
    let mut w = World::new();
    let config = Config::standard();
    let traits = Traits { max_speed: 7_000, turn_speed: 2_000 };
    let a = w.spawn(juvenile(&config, EntityKind::Prey, cell(0, 0), Some(traits))).unwrap();
    let p = w.spawn(juvenile(&config, EntityKind::Plant, cell(0, 0), None)).unwrap();
    let to = Steering::Toward { dx: 0, dy: 1 };
    assert_eq!(turn_agent(&mut w, a, to, 1_571, 100), Some(200));
    assert_eq!(w.get(a).unwrap().motion, Some(Motion { direction: 200, speed: 7_000 }));
    assert_eq!(turn_agent(&mut w, a, Steering::Keep, -3_000, 100), Some(200));
    assert_eq!(turn_agent(&mut w, a, to, 1_571, 10_000), Some(1_571));
    assert_eq!(turn_agent(&mut w, a, Steering::Perturb { angle: 9 }, 0, 10_000), Some(1_470));
    assert_eq!(turn_agent(&mut w, p, to, 1_571, 100), None);
    assert_eq!(w.get(p).unwrap().motion, None);
    assert_eq!(turn_agent(&mut w, 99, to, 1_571, 100), None);
    alter(&mut w, a, |it| it.traits = None);
    assert_eq!(turn_agent(&mut w, a, to, -1_571, 1), Some(-1_571));
    assert_eq!(w.get(a).unwrap().motion, Some(Motion { direction: -1_571, speed: 7_000 }));
    w.despawn(a);
    assert_eq!(turn_agent(&mut w, a, to, 0, 100), None);
}

#[test]
fn an_agent_steps_at_its_top_speed_into_the_cell_it_reaches() {
    let mut w = World::new();
    let config = Config::standard();
    let traits = Traits { max_speed: 7_000, turn_speed: 2_000 };
    let a = w.spawn(juvenile(&config, EntityKind::Prey, cell(1, -1), Some(traits))).unwrap();
    let p = w.spawn(juvenile(&config, EntityKind::Plant, cell(0, 0), None)).unwrap();
    assert_eq!(w.get(a).unwrap().place, Point { x: 6_000, y: -6_000 });
    assert_eq!(w.get(a).unwrap().motion.unwrap().speed, 50_000);
    let reached = step_agent(&mut w, a, 1_000, 0, 1_000);
    assert_eq!(reached, Some(Point { x: 13_000, y: -6_000 }));
    let agent = *w.get(a).unwrap();
    assert_eq!(agent.place, Point { x: 13_000, y: -6_000 });
    assert_eq!(agent.position, cell(2, -1));
    assert_eq!(agent.motion, Some(Motion { direction: 0, speed: 7_000 }));
    assert_eq!(step_agent(&mut w, a, 0, -1_000, 5_000), Some(Point { x: 13_000, y: -41_000 }));
    assert_eq!(w.get(a).unwrap().position, cell(2, -7));
    assert_eq!(step_agent(&mut w, a, 600, 800, 0), Some(Point { x: 13_000, y: -41_000 }));
    assert_eq!(step_agent(&mut w, p, 1_000, 0, 1_000), None);
    assert_eq!(w.get(p).unwrap().place, Point { x: 0, y: 0 });
    assert_eq!(step_agent(&mut w, 99, 1_000, 0, 1_000), None);
    w.despawn(a);
    assert_eq!(step_agent(&mut w, a, 1_000, 0, 1_000), None);
}

#[test]
fn the_middle_of_a_cell_is_its_place() {
    assert_eq!(cell_centre(cell(0, 0)), Point { x: 0, y: 0 });
    assert_eq!(cell_centre(cell(3, -2)), Point { x: 18_000, y: -12_000 });
    assert_eq!(quantize(cell_centre(cell(357_913, -357_913))), cell(357_913, -357_913));
    assert_eq!(cell_centre(cell(i32::MAX, i32::MIN)), Point { x: i32::MAX, y: i32::MIN });
}

#[test]
fn an_agent_advances_along_its_heading() {
    let at = Point { x: 1_000, y: -1_000 };
    assert_eq!(advance(at, 1_000, 0, 50_000, 16), Point { x: 1_800, y: -1_000 });
    assert_eq!(advance(at, 0, -1_000, 50_000, 16), Point { x: 1_000, y: -1_800 });
    assert_eq!(advance(at, 600, 800, 80_000, 1_000), Point { x: 49_000, y: 63_000 });
    assert_eq!(advance(at, -707, -707, 3, 1_000), Point { x: 998, y: -1_002 });
    assert_eq!(advance(at, 1_000, 1_000, 0, 1_000), at);
    assert_eq!(advance(at, 1_000, 1_000, 50_000, 0), at);
}

#[test]
fn an_agent_stops_at_the_edge_of_the_world() {
    let at = Point { x: i32::MAX - 5, y: i32::MIN + 5 };
    assert_eq!(
        advance(at, 1_000, -1_000, 50_000, 16),
        Point { x: i32::MAX, y: i32::MIN }
    );
    assert_eq!(
        advance(Point { x: 0, y: 0 }, i32::MIN, i32::MAX, u32::MAX, u64::MAX),
        Point { x: i32::MIN, y: i32::MAX }
    );
}

#[test]
fn roaming_agents_go_by_their_own_rolls() {
    let mut w = World::new();
    let config = Config::standard();
    for i in 0..4 {
        w.spawn(juvenile(&config, EntityKind::Prey, cell(i, 0), None)).unwrap();
    }
    w.spawn(juvenile(&config, EntityKind::Plant, cell(9, 0), None)).unwrap();
    w.spawn(juvenile(&config, EntityKind::Prey, cell(5, 0), None)).unwrap();
    w.despawn(1);
    let rolls = vec![
        WanderRolls { turn: 99, angle: 10 },
        WanderRolls { turn: 0, angle: 20 },
        WanderRolls { turn: 100, angle: 30 },
        WanderRolls { turn: 5, angle: 7_000 },
    ];
    assert_eq!(
        plan_moves(&w, &rolls),
        vec![
            (0, Steering::Perturb { angle: 10 }),
            (2, Steering::Keep),
            (3, Steering::Perturb { angle: 717 }),
            (5, Steering::Keep),
        ]
    );
}

#[test]
fn a_seeking_agent_makes_its_whole_move() {
    let mut w = World::new();
    let config = Config::standard();
    let traits = Traits { max_speed: 6_000, turn_speed: 1_000 };
    let a = w.spawn(juvenile(&config, EntityKind::Prey, cell(0, 0), Some(traits))).unwrap();
    let p = w.spawn(juvenile(&config, EntityKind::Plant, cell(0, 3), None)).unwrap();
    let up = Steering::Toward { dx: 0, dy: 3 };
    let reached = move_agent(&mut w, a, up, &bearing_of, &trig_of, 1_000);
    assert_eq!(trig_of(1_000), (540, 841));
    assert_eq!(reached, Some(Point { x: 3_240, y: 5_046 }));
    let agent = *w.get(a).unwrap();
    assert_eq!(agent.motion, Some(Motion { direction: 1_000, speed: 6_000 }));
    assert_eq!(agent.place, Point { x: 3_240, y: 5_046 });
    assert_eq!(agent.position, cell(1, 1));
    let reached = move_agent(&mut w, a, up, &bearing_of, &trig_of, 1_000);
    assert_eq!(w.get(a).unwrap().motion.unwrap().direction, 1_571);
    assert_eq!(reached, Some(Point { x: 3_240, y: 11_046 }));
    assert_eq!(w.get(a).unwrap().position, cell(1, 2));
    let kept = move_agent(&mut w, a, Steering::Keep, &bearing_of, &trig_of, 500);
    assert_eq!(kept, Some(Point { x: 3_240, y: 14_046 }));
    assert_eq!(w.get(a).unwrap().motion.unwrap().direction, 1_571);
    assert_eq!(move_agent(&mut w, p, up, &bearing_of, &trig_of, 1_000), None);
    assert_eq!(move_agent(&mut w, 99, up, &bearing_of, &trig_of, 1_000), None);
    assert_eq!(w.get(p).unwrap().position, cell(0, 3));
}

#[test]
fn a_roaming_agent_turns_no_farther_than_a_blend_can() {
    assert_eq!(blend(1_000, 0, 0, 1_000), (1_000_000, 100_000));
    assert_eq!(blend(-1_000, 500, 1_000, -1_000), (-900_000, 400_000));
    let mut w = World::new();
    let config = Config::standard();
    let a = w.spawn(juvenile(&config, EntityKind::Prey, cell(0, 0), None)).unwrap();
    let quarter = Steering::Perturb { angle: 1_571 };
    move_agent(&mut w, a, quarter, &bearing_of, &trig_of, 1_000);
    assert_eq!(w.get(a).unwrap().motion.unwrap().direction, bearing_of(1_000_000, 100_000));
    assert_eq!(bearing_of(1_000_000, 100_000), 100);
    let wild = |_: i64, _: i64| 3_000;
    move_agent(&mut w, a, quarter, &wild, &trig_of, 1_000);
    assert_eq!(w.get(a).unwrap().motion.unwrap().direction, 100 + WANDER_ARC);
}

#[test]
fn the_motion_of_a_tick_moves_every_agent_of_the_plan() {
    let mut w = World::new();
    let config = Config::standard();
    let a = w.spawn(juvenile(&config, EntityKind::Prey, cell(0, 0), None)).unwrap();
    let b = w.spawn(juvenile(&config, EntityKind::Prey, cell(5, 5), None)).unwrap();
    let p = w.spawn(juvenile(&config, EntityKind::Plant, cell(2, 0), None)).unwrap();
    alter(&mut w, a, |it| it.behavior = Some(MotionBehavior::Seek { target: p }));
    alter(&mut w, b, |it| it.behavior = Some(MotionBehavior::Seek { target: 77 }));
    let plan = plan_moves(&w, &vec![]);
    assert_eq!(plan, vec![(a, Steering::Toward { dx: 2, dy: 0 }), (b, Steering::Keep)]);
    let reached = move_agents(&mut w, &plan, &bearing_of, &trig_of, 100);
    assert_eq!(
        reached,
        vec![(a, Point { x: 8_000, y: 0 }), (b, Point { x: 38_000, y: 30_000 })]
    );
    assert_eq!(w.get(a).unwrap().position, cell(1, 0));
    assert_eq!(w.get(b).unwrap().position, cell(6, 5));
    assert_eq!(w.get(a).unwrap().motion, Some(Motion { direction: 0, speed: 80_000 }));
    assert_eq!(w.get(p).unwrap().place, Point { x: 12_000, y: 0 });
    w.despawn(a);
    let reached = move_agents(&mut w, &plan, &bearing_of, &trig_of, 100);
    assert_eq!(reached, vec![(b, Point { x: 46_000, y: 30_000 })]);
}
