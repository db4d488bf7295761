//! A small artificial-life ecosystem on an integer grid: plants, prey and
//! predators that perceive, decide, move, feed, breed and die, one tick at a
//! time.
//!
//! Every quantity is a whole number. Energy is counted in thousandths of an
//! energy point, time steps in milliseconds, rates in units per second,
//! world positions in thousandths of a world unit, and angles in
//! thousandths of a radian.
//!
//! `pipeline::tick` is one tick of the whole: every agent looks around,
//! decides and takes up a way of moving; the agents move; collisions are
//! resolved into meals and breedings; energy drains and the starved die;
//! the plants spread. A host lends the tick its trigonometry, the one thing
//! that whole numbers do not have. The stages can be run one by one as
//! well, on rolls of the thread's random generator or on rolls handed in.

pub mod collision;
pub mod config;
pub mod decision;
pub mod eating;
pub mod energy;
pub mod entities;
pub mod geometry;
pub mod grid;
pub mod growth;
pub mod metabolism;
pub mod movement;
pub mod pipeline;
mod random;
pub mod spawn;
pub mod vision;
pub mod world;
