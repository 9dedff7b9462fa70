//! Core of a tournament runner for two-player game engines.
//!
//! The library holds the verified logic of the runner: statistics counters,
//! the pair store, the work generator, the game driver with its clock rules,
//! the event-reducer steps of the coordinator, and the command-line parser.
//! Process handling, floating-point Elo/SPRT evaluation and console output
//! live outside the library and talk to it through plain values.

pub mod stats;
pub mod store;
pub mod generator;
pub mod clock;
pub mod players;
pub mod play;
pub mod tournament;
pub mod parse;
pub mod board;
