//! Deterministic simulation core of a grid-based snake game.
//!
//! The crate is organised around a small rule engine: value types for the
//! grid geometry, a seeded pseudo-random generator, the mutable game state
//! with its constructors, the step function that advances the state, and a
//! game loop that ties an input source, a clock and the rule engine
//! together.  High-score bookkeeping and user settings round the core off.
//! Rendering and on-disk persistence are left to the embedding application.

pub mod input;
pub mod persistence;
pub mod rng;
pub mod rules;
pub mod settings;
pub mod state;
pub mod systems;
pub mod types;
