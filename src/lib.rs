//! A turn-based cave crawler: map model, cave generator, actors with brains,
//! action execution and a round-robin scheduler, all verified with Verus.
pub mod util;
pub mod rng;
pub mod input;
pub mod world;
pub mod actor;
pub mod action;
pub mod path;
pub mod scheduler;
pub mod generator;
pub mod laws;
