use vstd::prelude::*;

pub mod ansi;
pub mod camera;
pub mod display;
pub mod geometry;
pub mod input;
pub mod on_exit;
pub mod render;

verus! {

/// Number of world-coordinate units per terminal cell. World positions and
/// sizes are integers counted in these sub-cell units, so that a box centered
/// on a whole cell with an integer cell size still has exactly representable
/// corners.
pub const UNITS_PER_CELL: i64 = 2;

} // verus!
