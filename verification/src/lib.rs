//! Startup supervision for a desktop application that delegates its work to a
//! companion process: where the companion's entry point lives, whether and how
//! it is launched, and how the host's own startup is ordered around that.
//!
//! The library performs no I/O. Each component is a small machine that names
//! the next thing to do (probe a path, spawn a command, wait) and is told what
//! came of it; the embedding program carries the actions out.

pub mod path;
pub mod resolver;
pub mod launcher;
pub mod sequencer;
