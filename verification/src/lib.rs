//! Stage logic for a visual-novel presenter: the console grammar, the command
//! state machine, the dialogue typewriter, the worker-pool sizing policy and
//! the mesh builder that turns posed skeleton slots into one draw batch.
//!
//! Lengths are in 16.16 fixed point and time is in microseconds, so every
//! quantity the contracts speak of is an integer.

pub mod command;
pub mod console;
pub mod dialogue;
pub mod entity;
pub mod mesh;
pub mod scheduler;
pub mod stage;
pub mod text;
