//! Simulation core of a small arcade game on a wrapped two-dimensional field:
//! a ship turns, thrusts, shoots and pings its radar among drifting rocks, and
//! clears a level by reaching its wormhole.
//!
//! Every quantity is a fixed-point integer, so a frame is a function of the
//! state, the held keys and the random draws of the spawner, and nothing else.
//! Windows, pictures, sounds and keyboards are left to the caller: the game
//! takes key events in, and hands out what to draw and which sounds to play.
//!
//! - [`fixed`], [`vector`], [`trig`]: scalars, vectors, headings.
//! - [`actor`]: the simulated objects and what each kind starts with.
//! - [`physics`]: steering, the speed limit, motion, wrapping, timed life.
//! - [`spawn`]: new rocks and wormholes in a ring around the player.
//! - [`collide`]: who hits whom, and what it scores.
//! - [`game`], [`events`], [`frame`]: the state, the keys, one frame.
//! - [`steady`]: what play preserves.
//! - [`render`]: the game as a list of figures.

pub mod actor;
pub mod collide;
pub mod events;
pub mod fixed;
pub mod frame;
pub mod game;
pub mod physics;
pub mod render;
pub mod spawn;
pub mod steady;
pub mod trig;
pub mod vector;
