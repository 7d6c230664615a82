//! Configuration model, validation and chord-progression engine of a
//! spin-chain driven MIDI generator.

pub mod chord;
pub mod cli;
pub mod config;
pub mod runtime;
pub mod text;
