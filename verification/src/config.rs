//! Configuration of a simulation.
//!
//! Lengths are whole numbers of units, a thousand to the pixel. The screen
//! is always a whole number of cells wide and high.

use vstd::prelude::*;
use crate::noisetypes::NoiseType;

verus! {

/// Units of length in a pixel.
pub const UNITS_PER_PIXEL: i64 = 1000;

/// Least width of the window, in pixels.
pub const MIN_WIDTH: u32 = 500;

/// Least height of the window, in pixels.
pub const MIN_HEIGHT: u32 = 300;

/// Least number of simulation steps in a second.
pub const MIN_DELTA: u32 = 15;

/// Least edge of a cell, in units.
pub const MIN_SIZE_CELL: u32 = 5000;

/// Greatest edge of a cell and greatest extent of the screen, in units.
pub const MAX_EXTENT: i64 = 0x1000_0000_0000;

/// The seed that stands for "draw one at random".
pub const UNSET_SEED: i64 = -1;

/// Microseconds in a second.
pub const MICROS_PER_SECOND: u32 = 1000000;

/// Everything a simulation is set up from.
#[derive(Debug, Clone, Copy, PartialEq, Eq, Structural)]
pub struct Config {
    /// Width of the screen, in units.
    pub screen_width: i64,
    /// Height of the screen, in units.
    pub screen_height: i64,
    /// Length of a simulation step, in microseconds.
    pub fixed_delta: u32,
    /// Width of the terrain, in cells.
    pub terrain_width: usize,
    /// Height of the terrain, in cells.
    pub terrain_height: usize,
    /// Edge of a cell, in units.
    pub cell_size: i64,
    /// Seed of terrain generation, or `UNSET_SEED`.
    pub seed: i64,
    /// Noise algorithm of terrain generation.
    pub noise_type: NoiseType,
}

impl Config {
    /// The screen is exactly as wide and as high as the terrain, and every
    /// extent is within `MAX_EXTENT`.
    pub open spec fn wf(self) -> bool {
        &&& 1 <= self.cell_size <= MAX_EXTENT
        &&& self.screen_width == self.terrain_width * self.cell_size
        &&& self.screen_height == self.terrain_height * self.cell_size
        &&& self.screen_width <= MAX_EXTENT
        &&& self.screen_height <= MAX_EXTENT
    }

    /// Whether the configuration is well-formed.
    pub fn is_well_formed(&self) -> (ok: bool)
        ensures
            ok == self.wf(),
    {
        if self.cell_size < 1 || self.cell_size > MAX_EXTENT || self.screen_width > MAX_EXTENT
            || self.screen_height > MAX_EXTENT || self.screen_width < 0 || self.screen_height < 0 {
            return false;
        }
        let columns: u128 = self.terrain_width as u128;
        let rows: u128 = self.terrain_height as u128;
        let cell: u128 = self.cell_size as u128;
        let limit: u128 = MAX_EXTENT as u128;
        if columns > limit || rows > limit {
            proof {
                lemma_cells_are_not_narrow(self.terrain_width as int, self.cell_size as int);
                lemma_cells_are_not_narrow(self.terrain_height as int, self.cell_size as int);
            }
            return false;
        }
        assert(columns * cell <= limit * limit && rows * cell <= limit * limit) by (nonlinear_arith)
            requires
                columns <= limit,
                rows <= limit,
                cell <= limit,
        ;
        columns * cell == self.screen_width as u128 && rows * cell == self.screen_height as u128
    }

    /// The configuration that `update_constants` derives from its
    /// arguments: each of the first four raised to its minimum, the screen
    /// cut down to a whole number of cells, and the step length of `delta`
    /// steps in a second.
    pub open spec fn derived(
        width: u32,
        height: u32,
        delta: u32,
        cell_size: u32,
        seed: i64,
        noise: NoiseType,
    ) -> Config {
        let cell = at_least(cell_size, MIN_SIZE_CELL) as int;
        let columns = at_least(width, MIN_WIDTH) * UNITS_PER_PIXEL / cell;
        let rows = at_least(height, MIN_HEIGHT) * UNITS_PER_PIXEL / cell;
        Config {
            screen_width: (columns * cell) as i64,
            screen_height: (rows * cell) as i64,
            fixed_delta: MICROS_PER_SECOND / at_least(delta, MIN_DELTA),
            terrain_width: columns as usize,
            terrain_height: rows as usize,
            cell_size: cell as i64,
            seed,
            noise_type: noise,
        }
    }
}

/// The larger of `value` and `least`.
pub open spec fn at_least(value: u32, least: u32) -> u32 {
    if value < least {
        least
    } else {
        value
    }
}

/// Derives the configuration from the window's width and height in pixels,
/// the number of steps in a second, the edge of a cell in units, the seed
/// and the noise algorithm. A value below its minimum is replaced by the
/// minimum.
pub fn update_constants(
    width: u32,
    height: u32,
    delta: u32,
    cell_size: u32,
    seed: i64,
    noise: NoiseType,
) -> (config: Config)
    ensures
        config == Config::derived(width, height, delta, cell_size, seed, noise),
        config.wf(),
        config.cell_size >= MIN_SIZE_CELL,
        config.screen_width <= at_least(width, MIN_WIDTH) * UNITS_PER_PIXEL,
        config.screen_height <= at_least(height, MIN_HEIGHT) * UNITS_PER_PIXEL,
{
    let cell: i64 = if cell_size < MIN_SIZE_CELL {
        MIN_SIZE_CELL as i64
    } else {
        cell_size as i64
    };
    let width: i64 = if width < MIN_WIDTH {
        MIN_WIDTH as i64
    } else {
        width as i64
    };
    let height: i64 = if height < MIN_HEIGHT {
        MIN_HEIGHT as i64
    } else {
        height as i64
    };
    let delta: u32 = if delta < MIN_DELTA {
        MIN_DELTA
    } else {
        delta
    };
    let columns: i64 = width * UNITS_PER_PIXEL / cell;
    let rows: i64 = height * UNITS_PER_PIXEL / cell;
    proof {
        lemma_whole_cells(width * UNITS_PER_PIXEL, cell as int);
        lemma_whole_cells(height * UNITS_PER_PIXEL, cell as int);
        vstd::arithmetic::div_mod::lemma_div_is_ordered_by_denominator(
            width * UNITS_PER_PIXEL,
            MIN_SIZE_CELL as int,
            cell as int,
        );
        vstd::arithmetic::div_mod::lemma_div_is_ordered_by_denominator(
            height * UNITS_PER_PIXEL,
            MIN_SIZE_CELL as int,
            cell as int,
        );
    }
    Config {
        screen_width: columns * cell,
        screen_height: rows * cell,
        fixed_delta: MICROS_PER_SECOND / delta,
        terrain_width: columns as usize,
        terrain_height: rows as usize,
        cell_size: cell,
        seed,
        noise_type: noise,
    }
}

/// The whole cells that fit into an extent are no wider than the extent,
/// and no more numerous than its units.
pub proof fn lemma_whole_cells(extent: int, cell: int)
    requires
        0 <= extent,
        1 <= cell,
    ensures
        0 <= extent / cell <= extent,
        0 <= (extent / cell) * cell <= extent,
        extent - cell < (extent / cell) * cell,
{
    vstd::arithmetic::div_mod::lemma_fundamental_div_mod(extent, cell);
    assert(cell * (extent / cell) == (extent / cell) * cell) by (nonlinear_arith);
}

/// In a well-formed configuration the terrain has as many columns and rows
/// as whole cells fit into the screen.
pub proof fn lemma_grid_fills_screen(config: Config)
    requires
        config.wf(),
    ensures
        config.terrain_width == config.screen_width / config.cell_size,
        config.terrain_height == config.screen_height / config.cell_size,
{
    vstd::arithmetic::div_mod::lemma_div_by_multiple(
        config.terrain_width as int,
        config.cell_size as int,
    );
    vstd::arithmetic::div_mod::lemma_div_by_multiple(
        config.terrain_height as int,
        config.cell_size as int,
    );
}

/// Cells of at least one unit are together at least as wide as they are
/// many.
pub proof fn lemma_cells_are_not_narrow(count: int, cell: int)
    requires
        0 <= count,
        1 <= cell,
    ensures
        count <= count * cell,
{
    assert(count <= count * cell) by (nonlinear_arith)
        requires
            0 <= count,
            1 <= cell,
    ;
}

/// Width of the screen, in units.
pub fn read_screen_width(config: &Config) -> (width: i64)
    ensures
        width == config.screen_width,
{
    config.screen_width
}

/// Height of the screen, in units.
pub fn read_screen_height(config: &Config) -> (height: i64)
    ensures
        height == config.screen_height,
{
    config.screen_height
}

/// Width of the terrain, in cells.
pub fn read_terrain_width(config: &Config) -> (columns: usize)
    ensures
        columns == config.terrain_width,
{
    config.terrain_width
}

/// Height of the terrain, in cells.
pub fn read_terrain_height(config: &Config) -> (rows: usize)
    ensures
        rows == config.terrain_height,
{
    config.terrain_height
}

/// Length of a simulation step, in microseconds.
pub fn read_delta(config: &Config) -> (micros: u32)
    ensures
        micros == config.fixed_delta,
{
    config.fixed_delta
}

/// Edge of a cell, in units.
pub fn read_cell_size(config: &Config) -> (edge: i64)
    ensures
        edge == config.cell_size,
{
    config.cell_size
}

/// Seed of terrain generation, or `UNSET_SEED`.
pub fn read_seed(config: &Config) -> (seed: i64)
    ensures
        seed == config.seed,
{
    config.seed
}

/// Noise algorithm of terrain generation.
pub fn read_noisetype(config: &Config) -> (noise: NoiseType)
    ensures
        noise == config.noise_type,
{
    config.noise_type
}

} // verus!
