//! Pipelines of child processes, as a shell runs `a | b | c > file`: the
//! order in which the stages start, how each reads what the one before it
//! writes, which processes are killed when a stage does not start, and
//! what comes back to the caller, or ends the process, when a stage fails.
//!
//! The library starts no process itself. A run is a value that says what
//! is to be done next ([`engine::Progress`]); whoever drives it does that
//! and hands the answer back. What holds of every run, whatever its
//! processes do, is proved in [`guarantees`].

pub mod any_err;
pub mod command_ext;
pub mod engine;
pub mod exit;
pub mod guarantees;
pub mod join;
pub mod pipe;
pub mod prelude;
pub mod result_ext;
pub mod text;
pub mod tree;
