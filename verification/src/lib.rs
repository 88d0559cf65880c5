//! Core of a two-dimensional terrain destruction simulation.
//!
//! A grid of cells, each made of some material and able to take some
//! damage, is worn down by effects that move across it: bubbles, which a
//! cell can throw back, and bolts of lightning, which nothing withstands.
//! A quadtree over the centres of the cells that are not empty tells an
//! effect which cells are near it. The tree is rebuilt from the grid at the
//! start of a step whenever damage has emptied a cell since it was built.
//!
//! Everything here is done in whole numbers. Lengths and positions are
//! counted in units, a thousand to the pixel; headings in steps, 6284 to
//! the full turn; durability and damage in points; points in time in
//! milliseconds and the length of a step in microseconds; noise samples
//! and the components of direction vectors in thousandths. What needs
//! fractions (sampling the noise, the cosine and the sine of a heading),
//! and what needs a screen, a loudspeaker or a clock, is left to the
//! caller, who hands the results in.
//!
//! - [`materials`], [`cell`]: what the terrain is made of.
//! - [`quadtree`]: the spatial index.
//! - [`sequences`]: facts about sequences that the proofs rest on.
//! - [`effect`]: effects and the arithmetic of headings.
//! - [`simulation`]: the rules by which one effect moves, wears cells down
//!   and has children.
//! - [`world`]: what a state holds as plain values, and what damage and a
//!   step of the simulation make of it.
//! - [`mainstate`]: the state itself and the operations on it.
//! - [`input`]: what a press of a mouse button asks for.
//! - [`config`]: the configuration of a simulation.
//! - [`noisetypes`], [`noisegenerator`]: the noise behind the terrain.

pub mod cell;
mod chance;
pub mod config;
pub mod effect;
pub mod input;
pub mod mainstate;
pub mod materials;
pub mod noisegenerator;
pub mod noisetypes;
pub mod quadtree;
pub mod sequences;
pub mod simulation;
pub mod world;
