//! A flocking simulation core: autonomous vehicles that steer by composable
//! behaviours, a force budget that the behaviours share in order of
//! priority, motion on a torus, and a uniform grid that finds neighbours.
//!
//! All quantities are exact fixed-point numbers: an `i64` counts thousandths
//! of a unit (see [`fixed::SCALE`]). Products and quotients are rounded
//! toward zero and lengths are rounded up, so that no rounding ever takes a
//! force over its budget or a velocity over its limit.
//!
//! The vehicles live in an arena, the population of a [`game_world::GameWorld`];
//! the grid and the behaviours refer to a vehicle by its index there.
#![allow(non_snake_case)]
#![allow(non_camel_case_types)]
#![allow(non_upper_case_globals)]

pub mod fixed;
pub mod configuration;
pub mod vec2;
pub mod utils;
pub mod inverted_aab_box_2d;
pub mod entity_traits;
pub mod base_entity;
pub mod moving_entity;
pub mod cell_space_partition;
pub mod smoother;
pub mod neighbor_sum;
pub mod c2d_matrix;
pub mod transformations;
pub mod steering_behavior;
pub mod vehicle;
pub mod entity_functions;
pub mod game_world;
