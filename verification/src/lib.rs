//! A tile-grid ballistic collision engine: fixed-point geometry, grid ray
//! casting, projectile simulation with penetration and ricochet, and
//! line-of-sight queries.
//!
//! World coordinates are fixed-point: `fixed::SCALE` subunits make one world
//! unit, and a grid cell is 32 world units on a side.

pub mod bullet;
pub mod cast;
pub mod decoration;
pub mod enemy;
pub mod fixed;
pub mod geom;
pub mod health;
pub mod grid;
pub mod material;
pub mod player;
pub mod visibility;
pub mod weapon;

pub use fixed::SCALE;
