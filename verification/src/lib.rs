//! A verified core for automating a graphics capture/replay tool.
//!
//! The library holds the logic of the automation: the command runner's
//! outcome classification, the scripting bridge's run-directory naming
//! and response envelope, the action-tree query and export engine, the
//! capture-trigger state machine, and the environment diagnosis engine.
//! Every function here is executable Rust whose behaviour is stated in
//! contracts and proved; process spawning, filesystem and network I/O
//! stay outside and hand the library plain values.
use vstd::prelude::*;

pub mod text;
pub mod flags;
pub mod actions;
pub mod workflows;
pub mod json;
pub mod command;
pub mod scripting;
pub mod renderdoccmd;
pub mod diagnosis;
pub mod replay;
pub mod paths;
pub mod codec;

verus! {

} // verus!
