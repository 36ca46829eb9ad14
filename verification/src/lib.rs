//! Simulation of multi-step governance proposals over an overlay of chain state.

pub mod config;
pub mod discovery;
pub mod editor;
pub mod error;
pub mod file_format;
pub mod order;
pub mod patch;
pub mod pool;
pub mod state;
pub mod workflow;
