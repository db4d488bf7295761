use ecosim::energy::Energy;

#[test]
fn drain_takes_rate_times_time() {
    let mut e = Energy { current: 100_000, max: 100_000, drain_rate: 25_000 };
    let depleted = e.drain(1_000);
    assert!(!depleted);
    assert_eq!(e.current, 75_000);
    assert_eq!(e.max, 100_000);
    assert_eq!(e.drain_rate, 25_000);
}

#[test]
fn drain_scales_with_the_time_step() {
    let mut e = Energy { current: 20_000, max: 100_000, drain_rate: 5_000 };
    assert!(!e.drain(16));
    assert_eq!(e.current, 20_000 - 80);
}

#[test]
fn drain_rounds_the_loss_down() {
    let mut e = Energy { current: 10, max: 10, drain_rate: 1_999 };
    assert!(!e.drain(1));
    assert_eq!(e.current, 9);
    let mut f = Energy { current: 10, max: 10, drain_rate: 999 };
    assert!(!f.drain(1));
    assert_eq!(f.current, 10);
}

#[test]
fn drain_clamps_to_zero() {
    let mut e = Energy { current: 100, max: 100_000, drain_rate: 5_000 };
    let depleted = e.drain(1_000);
    assert!(depleted);
    assert_eq!(e.current, 0);
}

#[test]
fn drain_to_exactly_zero_depletes() {
    let mut e = Energy { current: 5_000, max: 100_000, drain_rate: 5_000 };
    assert!(e.drain(1_000));
    assert_eq!(e.current, 0);
}

#[test]
fn drain_survives_the_largest_inputs() {
    let mut e = Energy { current: u64::MAX, max: u64::MAX, drain_rate: u64::MAX };
    assert!(e.drain(u64::MAX));
    assert_eq!(e.current, 0);
}

#[test]
fn gain_adds_up_to_the_capacity() {
    let mut e = Energy { current: 20_000, max: 100_000, drain_rate: 0 };
    e.gain(20_000);
    assert_eq!(e.current, 40_000);
    e.gain(70_000);
    assert_eq!(e.current, 100_000);
    e.gain(u64::MAX);
    assert_eq!(e.current, 100_000);
}

#[test]
fn gain_cuts_an_overfull_reserve_down() {
    let mut e = Energy { current: 150, max: 100, drain_rate: 0 };
    e.gain(1);
    assert_eq!(e.current, 100);
}

#[test]
fn new_cuts_down_to_the_capacity() {
    let e = Energy::new(150, 100, 7);
    assert_eq!(e, Energy { current: 100, max: 100, drain_rate: 7 });
    let f = Energy::new(50, 100, 7);
    assert_eq!(f.current, 50);
    let g = Energy::full(100, 7);
    assert_eq!(g.current, 100);
}

#[test]
fn spend_and_can_afford() {
    let mut e = Energy { current: 30_000, max: 100_000, drain_rate: 0 };
    assert!(e.can_afford(30_000));
    assert!(!e.can_afford(30_001));
    e.spend(20_000);
    assert_eq!(e.current, 10_000);
}
