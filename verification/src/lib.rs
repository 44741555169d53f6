//! Turn-ordered output for commands that run side by side.
//!
//! Several child processes are started together, yet their output must reach
//! one shared sink as whole blocks in launch order. This crate holds the
//! decisions behind that: three small state machines and a model of how they
//! work together. A driver performs what a machine directs (spawn, read,
//! write, wait) and reports back what happened; the machines decide what
//! comes next.

pub mod command;
pub mod job;
pub mod launch;
pub mod laws;
pub mod model;
pub mod runner;
