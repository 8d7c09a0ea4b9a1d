//! A small package installer: descriptor parsing, archive extraction planning
//! and the per-package installation state machine.

pub mod archive;
pub mod cli;
pub mod config;
pub mod error;
pub mod install;
pub mod paths;
pub mod script;
