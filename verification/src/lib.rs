//! Admission control for the compilers that a package-build daemon spawns.
//!
//! A supervisor traces every descendant of the daemon. Each time one of them
//! executes a program, the program is classified by name; a program with a
//! resource profile is admitted against a two-dimensional budget of CPUs and
//! memory, or queued until running peers have exited.

pub mod control;
pub mod daemon;
pub mod invariants;
pub mod limiter;
pub mod model;
pub mod nixutil;
pub mod resources;
pub mod text;
pub mod tracer;
