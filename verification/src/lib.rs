//! Core simulation of a deteriorating ice surface.
//!
//! Mobile agents (one player and any number of autonomous wanderers) move
//! over a frozen surface. The surface is discretized into a grid of cells,
//! each of which weakens under an agent and eventually breaks, dropping the
//! agent out of play. A separate per-pixel damage buffer accumulates a
//! purely cosmetic crack overlay.
//!
//! All continuous quantities are held in fixed-point integers so that every
//! rule of the simulation is stated and proved exactly:
//! positions in thousandths of a world unit, simulation time in
//! milliseconds, and headings as integer angles in thousandths of a degree.

pub mod actions;
pub mod agent;
pub mod field;
pub mod grid;
pub mod motion;
pub mod rng;
pub mod sim;
pub mod spawn;
pub mod trig;

use vstd::prelude::*;

verus! {

/// World width in whole units (the playable rectangle is centered on the origin).
pub const WORLD_WIDTH: i64 = 800;

/// World height in whole units.
pub const WORLD_HEIGHT: i64 = 600;

/// Fixed-point scale: positions are stored in thousandths of a unit.
pub const MILLI: i64 = 1000;

/// Half the world width, in thousandths of a unit.
pub const HALF_WIDTH_MILLI: i64 = 400_000;

/// Half the world height, in thousandths of a unit.
pub const HALF_HEIGHT_MILLI: i64 = 300_000;

/// Half of an agent sprite, in thousandths of a unit: positions are clamped
/// this far inside the world rectangle.
pub const MARGIN_MILLI: i64 = 16_000;

/// Side of one grid cell, in thousandths of a unit.
pub const CELL_MILLI: i64 = 10_000;

/// Number of grid columns (world width / cell side).
pub const GRID_COLS: usize = 80;

/// Number of grid rows (world height / cell side).
pub const GRID_ROWS: usize = 60;

} // verus!
