//! A flocking engine: boids that steer by cohesion, separation and
//! alignment, kept near the origin by a boundary force.
//!
//! A tick has three passes. The interaction pass lets every pair of boids
//! meet, and each boid collects what the three rules make it see of the
//! other. The environment pass gives every boid the boundary force of its
//! position. The integration pass turns what was collected into a force,
//! the force into a velocity of bounded length and the velocity into a new
//! position, and clears what was collected.
//!
//! All quantities are fixed-point integers (see `scalar`), so that every
//! contract is an exact statement over the integers: there is no rounding
//! that is not written down. Whether a boid lies within the cone of another
//! is decided without a square root or a division. The engine has no
//! trigonometry: the cosines of the cone half-angles are handed to it.
//!
//! The arithmetic is proved free of overflow for a world that reaches a
//! million units from the origin, flocks of up to a million boids, speeds
//! of up to one unit per tick and rules that reach up to four units; see
//! `Boid::wf` and `BoidProperty::wf`. A position that would leave the world
//! stays at its edge.

pub mod boid;
pub mod environment;
pub mod integration;
pub mod interaction;
pub mod order;
pub mod params;
pub mod population;
pub mod scalar;
pub mod tick;
pub mod ui;
pub mod vector;
