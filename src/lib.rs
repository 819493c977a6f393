//! Decision core of a grid-walking game bot: a traversability graph built
//! from a map snapshot, shortest-path search over it, steering, and the
//! per-tick decision loop.
//!
//! Positions, distances and speeds are fixed-point integers in millionths of
//! a cell side; angles are in millionths of a radian.
use vstd::prelude::*;

pub mod map;
pub mod path;
pub mod entity;
pub mod decision;
pub mod steering;
pub mod bot;
