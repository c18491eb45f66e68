use vstd::prelude::*;

verus! {

/// Width of the playing field, in cells.
pub const WIDTH: usize = 60;

/// Height of the playing field, in cells.
pub const HEIGHT: usize = 25;

/// Number of rows in the initial enemy formation.
pub const ENEMY_ROWS: usize = 5;

/// Number of columns in the initial enemy formation.
pub const ENEMY_COLS: usize = 10;

/// Vertical distance between two formation rows.
pub const ROW_SPACING: usize = 3;

/// Horizontal distance between two formation columns.
pub const COL_SPACING: usize = 5;

/// Column of the leftmost enemy of the formation.
pub const LEFT_MARGIN: usize = 5;

/// Row of the topmost enemy of the formation.
pub const TOP_MARGIN: usize = 2;

/// The formation sweeps once every this many ticks.
pub const SWEEP_PERIOD: usize = 5;

/// Points awarded for each enemy destroyed.
pub const KILL_SCORE: usize = 10;

/// An enemy whose row reaches this value ends the game in a loss.
pub const LOSS_ROW: usize = HEIGHT - 3;

/// Each live enemy fires with probability `FIRE_NUMERATOR / FIRE_DENOMINATOR` per tick.
pub const FIRE_NUMERATOR: u32 = 1;

/// See `FIRE_NUMERATOR`.
pub const FIRE_DENOMINATOR: u32 = 50;

/// Length of one simulation tick, in milliseconds.
pub const TICK_MILLIS: u64 = 100;

} // verus!
