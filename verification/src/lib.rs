//! A small 2D scene-swapping game core, verified with Verus.
//!
//! A controllable sprite moves over a background; walking onto a trigger
//! region swaps the active world between "real" and "dream". The crate
//! holds the spatial entity store, the movement integrator, the collision
//! detector, the world-switch state machine and the scene persistence
//! bridge. Rendering, asset loading and raw input belong to the host
//! program, which talks to this library through plain values.
//!
//! All coordinates are integers in fixed-point subunits (see [`geom`]),
//! so every piece of arithmetic in the simulation is exact and verified.

pub mod collision;
pub mod game;
pub mod geom;
pub mod movement;
pub mod scene;
pub mod store;
pub mod switch;
