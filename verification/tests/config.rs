use ecosim::config::{Config, ConfigError};

#[test]
fn the_standard_configuration_is_valid() {
    let c = Config::standard();
    assert_eq!(c.validate(), Ok(()));
    assert_eq!(c.growth_rate, 3_000);
    assert_eq!(c.cardinal_weight, 900);
    assert_eq!(c.breeding_cost, 20_000);
    assert_eq!(c.cell_size, 10_000);
}

#[test]
fn a_zero_cell_size_is_turned_down() {
    let c = Config { cell_size: 0, ..Config::standard() };
    assert_eq!(c.validate(), Err(ConfigError::CellSize));
    let d = Config { cell_size: -5, ..Config::standard() };
    assert_eq!(d.validate(), Err(ConfigError::CellSize));
    let e = Config { cell_size: i32::MAX as i64 + 1, ..Config::standard() };
    assert_eq!(e.validate(), Err(ConfigError::CellSize));
    let f = Config { cell_size: i32::MAX as i64, ..Config::standard() };
    assert_eq!(f.validate(), Ok(()));
}

#[test]
fn a_negative_drain_rate_is_turned_down() {
    let c = Config { drain_rate: -1, ..Config::standard() };
    assert_eq!(c.validate(), Err(ConfigError::DrainRate));
    let d = Config { drain_rate: 0, ..Config::standard() };
    assert_eq!(d.validate(), Ok(()));
}

#[test]
fn every_field_has_its_fault() {
    let s = Config::standard();
    assert_eq!(Config { vision_range: -1, ..s }.validate(), Err(ConfigError::VisionRange));
    assert_eq!(Config { vision_range: 1 << 32, ..s }.validate(), Err(ConfigError::VisionRange));
    assert_eq!(Config { growth_rate: -1, ..s }.validate(), Err(ConfigError::GrowthRate));
    assert_eq!(Config { cardinal_weight: 1_001, ..s }.validate(), Err(ConfigError::CardinalWeight));
    assert_eq!(Config { cardinal_weight: -1, ..s }.validate(), Err(ConfigError::CardinalWeight));
    assert_eq!(Config { cardinal_weight: 1_000, ..s }.validate(), Ok(()));
    assert_eq!(Config { breeding_threshold: -1, ..s }.validate(), Err(ConfigError::BreedingThreshold));
    assert_eq!(Config { breeding_cost: -1, ..s }.validate(), Err(ConfigError::BreedingCost));
    assert_eq!(Config { turn_speed: -1, ..s }.validate(), Err(ConfigError::TurnSpeed));
    assert_eq!(Config { max_speed: 1 << 32, ..s }.validate(), Err(ConfigError::MaxSpeed));
}

#[test]
fn the_first_fault_is_named() {
    let c = Config { max_speed: -1, drain_rate: -1, growth_rate: -1, ..Config::standard() };
    assert_eq!(c.validate(), Err(ConfigError::GrowthRate));
}
