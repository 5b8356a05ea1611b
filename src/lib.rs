//! Deterministic fixed-timestep core of a 2D bullet-pattern game: scripted
//! bullets and enemies, a player state machine, collision and culling, and
//! the scheduler that turns wall-clock time into logical ticks.
//!
//! All geometry is fixed-point: one pixel is `math::UNIT` sub-pixel units,
//! and angles are thousandths of a degree.
pub mod math;
pub mod collision;
pub mod script;
pub mod player;
pub mod level;
pub mod engine;
pub mod game;
