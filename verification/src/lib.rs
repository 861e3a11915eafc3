//! A small verified 2D platformer engine: a single rectangular player moves
//! under gravity and horizontal input, collides with static rectangular
//! platforms inside a fixed world, and is painted into a row-major pixel
//! buffer. Positions and velocities are carried in subpixel units (a fixed
//! number of units per pixel) so that the whole simulation is exact integer
//! arithmetic.

pub mod geom;
pub mod laws;
pub mod paint;
pub mod physics;
pub mod world;
