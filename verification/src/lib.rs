//! Simulation core of a small avatar-versus-hazard arcade game.
//!
//! A player-controlled circle dodges or slices hazard circles that spawn on a
//! fixed cadence and fly toward it.  The core covers countdown timing, player
//! physics, hazard spawning, motion integration, boundary reflection, and the
//! kill / removal / fatal-collision state machine, and is verified end to end.
//!
//! All quantities are integers: lengths and velocities in whole playfield
//! units, time in milliseconds.  Rendering, input, the clock and the random
//! source live outside the core; each frame the core receives plain values
//! (elapsed milliseconds, input flags, screen size) and hands back draw
//! requests plus a fatal flag.

pub mod enemy;
pub mod frame;
pub mod geom;
pub mod player;
pub mod spawner;
pub mod timer;
